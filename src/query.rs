use vstd::prelude::*;
use crate::text::{join, join_with, keep_trimmed, kept, squeeze_lines, lines_of};

verus! {

/// The dictionary fields extracted from one fetched page.
#[derive(Clone, Debug)]
pub struct WordQuery {
    pub pronunciation: Vec<(String, String)>,
    pub brief: Vec<String>,
    pub variants: Vec<String>,
    pub authority: Vec<String>,
    pub sentence: Vec<(String, String)>,
}

/// Why a page could not be read into a `WordQuery`.
#[derive(Clone, Copy, Debug, PartialEq, Eq, Structural)]
pub enum ExtractError {
    /// The selector engine refused one of the structural rules.
    SelectorRejected,
}

/// The text nodes of each element of the parsed page `page` that `selector`
/// matches, in document order; `None` where the selector does not parse.
pub uninterp spec fn selected_text(page: Seq<char>, selector: Seq<char>) -> Option<Seq<Seq<Seq<char>>>>;

/// Relies on `scraper::Html::parse_document`, `scraper::Selector::parse`,
/// `scraper::Html::select` and `scraper::ElementRef::text`: the text nodes of
/// each matching element, which depend on the two strings alone.
#[verifier::external_body]
fn select_text(page: &str, selector: &str) -> (r: Option<Vec<Vec<String>>>)
    ensures
        r.deep_view() == selected_text(page@, selector@),
{
    let sel = match scraper::Selector::parse(selector) {
        Ok(sel) => sel,
        Err(_) => return None,
    };
    let doc = scraper::Html::parse_document(page);
    Some(doc.select(&sel).map(|e| e.text().map(|t| t.to_string()).collect()).collect())
}

pub open spec fn pronunciation_selector() -> Seq<char> {
    "span.pronounce"@
}

pub open spec fn brief_selector() -> Seq<char> {
    "#phrsListTab .trans-container ul li"@
}

pub open spec fn variants_selector() -> Seq<char> {
    "#phrsListTab .trans-container p"@
}

pub open spec fn original_selector() -> Seq<char> {
    "#bilingual ul li p:nth-of-type(1)"@
}

pub open spec fn translation_selector() -> Seq<char> {
    "#bilingual ul li p:nth-of-type(2)"@
}

/// The text of an element: its trimmed, non-empty text nodes run together.
pub open spec fn flat_text(e: Seq<Seq<char>>) -> Seq<char> {
    join_with(kept(e), Seq::empty())
}

/// One (accent, phonetic) pair per marker with at least two non-empty text
/// nodes; other markers are skipped.
pub open spec fn pronunciations(els: Seq<Seq<Seq<char>>>) -> Seq<(Seq<char>, Seq<char>)>
    decreases els.len(),
{
    if els.len() == 0 {
        Seq::empty()
    } else {
        let rest = pronunciations(els.drop_last());
        let k = kept(els.last());
        if k.len() >= 2 {
            rest.push((k[0], k[1]))
        } else {
            rest
        }
    }
}

/// The text of each gloss item, the empty ones dropped.
pub open spec fn briefs(els: Seq<Seq<Seq<char>>>) -> Seq<Seq<char>>
    decreases els.len(),
{
    if els.len() == 0 {
        Seq::empty()
    } else {
        let rest = briefs(els.drop_last());
        let line = flat_text(els.last());
        if line.len() == 0 {
            rest
        } else {
            rest.push(line)
        }
    }
}

/// A text node with its lines trimmed and joined by single spaces.
pub open spec fn squeezed(t: Seq<char>) -> Seq<char> {
    join_with(kept(lines_of(t)), " "@)
}

/// One line per text node of one element.
pub open spec fn node_lines(ts: Seq<Seq<char>>) -> Seq<Seq<char>>
    decreases ts.len(),
{
    if ts.len() == 0 {
        Seq::empty()
    } else {
        node_lines(ts.drop_last()).push(squeezed(ts.last()))
    }
}

/// One line per text node of every element, in order.
pub open spec fn variant_lines(els: Seq<Seq<Seq<char>>>) -> Seq<Seq<char>>
    decreases els.len(),
{
    if els.len() == 0 {
        Seq::empty()
    } else {
        variant_lines(els.drop_last()) + node_lines(els.last())
    }
}

/// The texts of the elements, each run together.
pub open spec fn flat_texts(els: Seq<Seq<Seq<char>>>) -> Seq<Seq<char>> {
    els.map_values(|e: Seq<Seq<char>>| flat_text(e))
}

/// Originals paired with translations by position, as far as both go.
pub open spec fn paired(os: Seq<Seq<char>>, ts: Seq<Seq<char>>) -> Seq<(Seq<char>, Seq<char>)> {
    let n = if os.len() <= ts.len() { os.len() } else { ts.len() };
    Seq::new(n, |i: int| (os[i], ts[i]))
}

impl WordQuery {
    /// No field holds anything.
    pub open spec fn spec_is_empty(&self) -> bool {
        &&& self.pronunciation@.len() == 0
        &&& self.brief@.len() == 0
        &&& self.variants@.len() == 0
        &&& self.authority@.len() == 0
        &&& self.sentence@.len() == 0
    }

    /// Whether nothing was found: all five fields are empty.
    pub fn is_empty(&self) -> (r: bool)
        ensures
            r == self.spec_is_empty(),
    {
        self.pronunciation.len() == 0 && self.brief.len() == 0 && self.variants.len() == 0
            && self.authority.len() == 0 && self.sentence.len() == 0
    }

    /// The record built from the text nodes that the structural rules matched.
    pub open spec fn extracted(
        pron: Seq<Seq<Seq<char>>>,
        brief: Seq<Seq<Seq<char>>>,
        variants: Seq<Seq<Seq<char>>>,
        originals: Seq<Seq<Seq<char>>>,
        translations: Seq<Seq<Seq<char>>>,
        r: WordQuery,
    ) -> bool {
        &&& r.pronunciation.deep_view() == pronunciations(pron)
        &&& r.brief.deep_view() == briefs(brief)
        &&& r.variants.deep_view() == variant_lines(variants)
        &&& r.authority@.len() == 0
        &&& r.sentence.deep_view() == paired(flat_texts(originals), flat_texts(translations))
    }

    /// Builds the record from the text nodes of the elements that each rule
    /// matched: pronunciation markers, gloss items, variant blocks, and the
    /// originals and translations of example sentences.
    pub fn from_texts(
        pron: &Vec<Vec<String>>,
        brief: &Vec<Vec<String>>,
        variants: &Vec<Vec<String>>,
        originals: &Vec<Vec<String>>,
        translations: &Vec<Vec<String>>,
    ) -> (r: WordQuery)
        ensures
            WordQuery::extracted(
                pron.deep_view(),
                brief.deep_view(),
                variants.deep_view(),
                originals.deep_view(),
                translations.deep_view(),
                r,
            ),
    {
        WordQuery {
            pronunciation: pronunciations_of(pron),
            brief: briefs_of(brief),
            variants: variant_lines_of(variants),
            authority: Vec::new(),
            sentence: sentences_of(originals, translations),
        }
    }

    /// Reads a fetched page into a record by the fixed structural rules; a
    /// rule that matches nothing gives an empty field.
    pub fn select(page: &str) -> (r: Result<WordQuery, ExtractError>)
        ensures
            ({
                let p = selected_text(page@, pronunciation_selector());
                let b = selected_text(page@, brief_selector());
                let v = selected_text(page@, variants_selector());
                let o = selected_text(page@, original_selector());
                let t = selected_text(page@, translation_selector());
                if p is Some && b is Some && v is Some && o is Some && t is Some {
                    r is Ok && WordQuery::extracted(p->0, b->0, v->0, o->0, t->0, r->Ok_0)
                } else {
                    r == Err::<WordQuery, ExtractError>(ExtractError::SelectorRejected)
                }
            }),
    {
        let p = select_text(page, "span.pronounce");
        let b = select_text(page, "#phrsListTab .trans-container ul li");
        let v = select_text(page, "#phrsListTab .trans-container p");
        let o = select_text(page, "#bilingual ul li p:nth-of-type(1)");
        let t = select_text(page, "#bilingual ul li p:nth-of-type(2)");
        match (p, b, v, o, t) {
            (Some(p), Some(b), Some(v), Some(o), Some(t)) => Ok(
                WordQuery::from_texts(&p, &b, &v, &o, &t),
            ),
            _ => Err(ExtractError::SelectorRejected),
        }
    }
}

/// The text of an element: its trimmed, non-empty text nodes run together.
fn flat_text_of(e: &Vec<String>) -> (r: String)
    ensures
        r@ == flat_text(e.deep_view()),
{
    let k = keep_trimmed(e);
    proof {
        reveal_strlit("");
        assert(""@ =~= Seq::<char>::empty());
    }
    join(&k, "")
}

fn pronunciations_of(els: &Vec<Vec<String>>) -> (r: Vec<(String, String)>)
    ensures
        r.deep_view() == pronunciations(els.deep_view()),
{
    let mut r: Vec<(String, String)> = Vec::new();
    let mut i: usize = 0;
    while i < els.len()
        invariant
            i <= els.len(),
            r.deep_view() == pronunciations(els.deep_view().take(i as int)),
        decreases els.len() - i,
    {
        proof {
            assert(els.deep_view().take(i + 1).drop_last() =~= els.deep_view().take(i as int));
        }
        let k = keep_trimmed(&els[i]);
        if k.len() >= 2 {
            r.push((k[0].clone(), k[1].clone()));
        }
        proof {
            assert(r.deep_view() =~= pronunciations(els.deep_view().take(i + 1)));
        }
        i = i + 1;
    }
    proof {
        assert(els.deep_view().take(els.len() as int) =~= els.deep_view());
    }
    r
}

fn briefs_of(els: &Vec<Vec<String>>) -> (r: Vec<String>)
    ensures
        r.deep_view() == briefs(els.deep_view()),
{
    let mut r: Vec<String> = Vec::new();
    let mut i: usize = 0;
    while i < els.len()
        invariant
            i <= els.len(),
            r.deep_view() == briefs(els.deep_view().take(i as int)),
        decreases els.len() - i,
    {
        proof {
            assert(els.deep_view().take(i + 1).drop_last() =~= els.deep_view().take(i as int));
        }
        let line = flat_text_of(&els[i]);
        if line.as_str().unicode_len() > 0 {
            r.push(line);
        }
        proof {
            assert(r.deep_view() =~= briefs(els.deep_view().take(i + 1)));
        }
        i = i + 1;
    }
    proof {
        assert(els.deep_view().take(els.len() as int) =~= els.deep_view());
    }
    r
}

fn variant_lines_of(els: &Vec<Vec<String>>) -> (r: Vec<String>)
    ensures
        r.deep_view() == variant_lines(els.deep_view()),
{
    let mut r: Vec<String> = Vec::new();
    let mut i: usize = 0;
    while i < els.len()
        invariant
            i <= els.len(),
            r.deep_view() == variant_lines(els.deep_view().take(i as int)),
        decreases els.len() - i,
    {
        proof {
            assert(els.deep_view().take(i + 1).drop_last() =~= els.deep_view().take(i as int));
        }
        let e = &els[i];
        let ghost base = r.deep_view();
        let mut j: usize = 0;
        while j < e.len()
            invariant
                i < els.len(),
                e == els[i as int],
                j <= e.len(),
                r.deep_view() == base + node_lines(e.deep_view().take(j as int)),
            decreases e.len() - j,
        {
            proof {
                assert(e.deep_view().take(j + 1).drop_last() =~= e.deep_view().take(j as int));
            }
            let line = squeeze_lines(e[j].as_str());
            let ghost before = r.deep_view();
            r.push(line);
            proof {
                let tk = e.deep_view().take(j + 1);
                assert(tk.last() == e[j as int]@);
                assert(tk.drop_last() =~= e.deep_view().take(j as int));
                assert(node_lines(tk) == node_lines(e.deep_view().take(j as int)).push(squeezed(e[j as int]@)));
                assert(line@ == squeezed(e[j as int]@));
                assert(r.deep_view() =~= before.push(line@));
            }
            proof {
                assert(r.deep_view() =~= base + node_lines(e.deep_view().take(j + 1)));
            }
            j = j + 1;
        }
        proof {
            assert(e.deep_view().take(e.len() as int) =~= e.deep_view());
            assert(r.deep_view() =~= variant_lines(els.deep_view().take(i + 1)));
        }
        i = i + 1;
    }
    proof {
        assert(els.deep_view().take(els.len() as int) =~= els.deep_view());
    }
    r
}

fn sentences_of(originals: &Vec<Vec<String>>, translations: &Vec<Vec<String>>) -> (r: Vec<(String, String)>)
    ensures
        r.deep_view() == paired(flat_texts(originals.deep_view()), flat_texts(translations.deep_view())),
{
    let n = if originals.len() <= translations.len() { originals.len() } else { translations.len() };
    let mut r: Vec<(String, String)> = Vec::new();
    let mut i: usize = 0;
    while i < n
        invariant
            n <= originals.len(),
            n <= translations.len(),
            n == originals.len() || n == translations.len(),
            i <= n,
            r.deep_view() =~= paired(flat_texts(originals.deep_view()), flat_texts(translations.deep_view())).take(i as int),
        decreases n - i,
    {
        let o = flat_text_of(&originals[i]);
        let t = flat_text_of(&translations[i]);
        r.push((o, t));
        proof {
            assert(originals.deep_view()[i as int] == originals[i as int].deep_view());
            assert(translations.deep_view()[i as int] == translations[i as int].deep_view());
            assert(flat_texts(originals.deep_view())[i as int] == o@);
            assert(flat_texts(translations.deep_view())[i as int] == t@);
            let ps = paired(flat_texts(originals.deep_view()), flat_texts(translations.deep_view()));
            assert(ps.len() == n);
            assert(ps[i as int] == (o@, t@));
            assert(ps.take(i + 1) =~= ps.take(i as int).push((o@, t@)));
        }
        i = i + 1;
    }
    r
}

} // verus!
