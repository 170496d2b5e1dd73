use vstd::prelude::*;
use crate::entry::SingleEntry;

verus! {

/// How a piece of the shown entry is meant to look.
#[derive(Clone, Copy, Debug, PartialEq, Eq, Structural)]
pub enum Tone {
    Plain,
    Word,
    Phonetic,
    Brief,
    Variant,
    Original,
    Translation,
}

/// A piece of text of the shown entry, with its tone.
#[derive(Clone, Debug)]
pub struct Segment {
    pub text: String,
    pub tone: Tone,
}

/// Which optional parts of an entry are shown.
#[derive(Clone, Copy, Debug, PartialEq, Eq, Structural)]
pub struct Normal {
    pub with_pronunciation: bool,
    pub with_variants: bool,
    pub with_sentence: bool,
}

pub type SegView = (Seq<char>, Tone);

pub open spec fn seg_view(s: Segment) -> SegView {
    (s.text@, s.tone)
}

pub open spec fn segs_view(v: Seq<Segment>) -> Seq<SegView> {
    v.map_values(|s: Segment| seg_view(s))
}

pub open spec fn digit_char(d: nat) -> char {
    if d == 0 { '0' } else if d == 1 { '1' } else if d == 2 { '2' } else if d == 3 { '3' }
    else if d == 4 { '4' } else if d == 5 { '5' } else if d == 6 { '6' } else if d == 7 { '7' }
    else if d == 8 { '8' } else { '9' }
}

/// The decimal digits of `n`.
pub open spec fn decimal(n: nat) -> Seq<char>
    decreases n,
{
    if n < 10 {
        seq![digit_char(n)]
    } else {
        decimal(n / 10).push(digit_char(n % 10))
    }
}

pub open spec fn spaces(n: nat) -> Seq<char> {
    Seq::new(n, |i: int| ' ')
}

/// Each accent followed by its phonetic form and a tab.
pub open spec fn pron_segs(ps: Seq<(Seq<char>, Seq<char>)>) -> Seq<SegView>
    decreases ps.len(),
{
    if ps.len() == 0 {
        Seq::empty()
    } else {
        pron_segs(ps.drop_last()) + seq![
            (ps.last().0 + " "@, Tone::Plain),
            (ps.last().1, Tone::Phonetic),
            ("\t"@, Tone::Plain),
        ]
    }
}

/// Each line in `tone`, ended by a line feed.
pub open spec fn line_segs(ls: Seq<Seq<char>>, tone: Tone) -> Seq<SegView>
    decreases ls.len(),
{
    if ls.len() == 0 {
        Seq::empty()
    } else {
        line_segs(ls.drop_last(), tone) + seq![(ls.last(), tone), ("\n"@, Tone::Plain)]
    }
}

/// The `k`-th example sentence: its number, the original, and under it the
/// translation, indented by the width of the number.
pub open spec fn sentence_seg(k: nat, s: (Seq<char>, Seq<char>)) -> Seq<SegView> {
    let idx = decimal(k) + ". "@;
    seq![
        (idx, Tone::Plain),
        (s.0, Tone::Original),
        ("\n"@ + spaces(idx.len()), Tone::Plain),
        (s.1, Tone::Translation),
        ("\n"@, Tone::Plain),
    ]
}

/// The example sentences, numbered from one.
pub open spec fn sentence_segs(ss: Seq<(Seq<char>, Seq<char>)>) -> Seq<SegView>
    decreases ss.len(),
{
    if ss.len() == 0 {
        Seq::empty()
    } else {
        sentence_segs(ss.drop_last()) + sentence_seg(ss.len(), ss.last())
    }
}

/// The whole shown entry: the word, if given, then the parts that `n` asks for.
pub open spec fn entry_segs(e: SingleEntry, word: Option<Seq<char>>, n: Normal) -> Seq<SegView> {
    let head = match word {
        Some(w) => seq![(w, Tone::Word), ("\n"@, Tone::Plain)],
        None => Seq::empty(),
    };
    let pron = if n.with_pronunciation && e.pronunciation@.len() > 0 {
        pron_segs(e.pronunciation.deep_view()) + seq![("\n"@, Tone::Plain)]
    } else {
        Seq::empty()
    };
    let variants = if n.with_variants {
        line_segs(e.variants.deep_view(), Tone::Variant)
    } else {
        Seq::empty()
    };
    let sentences = if n.with_sentence {
        sentence_segs(e.sentence.deep_view())
    } else {
        Seq::empty()
    };
    head + pron + line_segs(e.brief.deep_view(), Tone::Brief) + variants + sentences
}

/// The texts of the segments run together.
pub open spec fn text_of(v: Seq<SegView>) -> Seq<char>
    decreases v.len(),
{
    if v.len() == 0 {
        Seq::empty()
    } else {
        text_of(v.drop_last()) + v.last().0
    }
}

/// The parts shown by the plain text form: variants and sentences, without
/// the pronunciation.
pub open spec fn plain_normal() -> Normal {
    Normal { with_pronunciation: false, with_variants: true, with_sentence: true }
}

fn digit_str(d: usize) -> (r: &'static str)
    requires
        d < 10,
    ensures
        r@ == seq![digit_char(d as nat)],
{
    proof {
        reveal_strlit("0");
        reveal_strlit("1");
        reveal_strlit("2");
        reveal_strlit("3");
        reveal_strlit("4");
        reveal_strlit("5");
        reveal_strlit("6");
        reveal_strlit("7");
        reveal_strlit("8");
        reveal_strlit("9");
    }
    let r = if d == 0 { "0" } else if d == 1 { "1" } else if d == 2 { "2" } else if d == 3 { "3" }
    else if d == 4 { "4" } else if d == 5 { "5" } else if d == 6 { "6" } else if d == 7 { "7" }
    else if d == 8 { "8" } else { "9" };
    proof {
        assert(r@ =~= seq![digit_char(d as nat)]);
    }
    r
}

/// The decimal digits of `n`.
pub fn decimal_of(n: usize) -> (r: String)
    ensures
        r@ == decimal(n as nat),
    decreases n,
{
    if n < 10 {
        String::from_str(digit_str(n))
    } else {
        let r = decimal_of(n / 10).concat(digit_str(n % 10));
        proof {
            assert(r@ =~= decimal(n as nat));
        }
        r
    }
}

fn spaces_of(n: usize) -> (r: String)
    ensures
        r@ == spaces(n as nat),
{
    proof {
        reveal_strlit(" ");
        assert(" "@ =~= seq![' ']);
    }
    let mut r = String::new();
    let mut i: usize = 0;
    while i < n
        invariant
            i <= n,
            " "@ == seq![' '],
            r@ =~= spaces(i as nat),
        decreases n - i,
    {
        r.append(" ");
        proof {
            assert(r@ =~= spaces((i + 1) as nat));
        }
        i = i + 1;
    }
    r
}

fn seg(text: String, tone: Tone) -> (r: Segment)
    ensures
        seg_view(r) == (text@, tone),
{
    Segment { text, tone }
}

fn push_seg(out: &mut Vec<Segment>, text: String, tone: Tone)
    ensures
        segs_view(final(out)@) == segs_view(old(out)@).push((text@, tone)),
{
    out.push(seg(text, tone));
    proof {
        assert(segs_view(out@) =~= segs_view(old(out)@).push((text@, tone)));
    }
}

fn push_pron(out: &mut Vec<Segment>, ps: &Vec<(String, String)>)
    ensures
        segs_view(final(out)@) == segs_view(old(out)@) + pron_segs(ps.deep_view()),
{
    let ghost base = segs_view(out@);
    let mut i: usize = 0;
    while i < ps.len()
        invariant
            i <= ps.len(),
            segs_view(out@) == base + pron_segs(ps.deep_view().take(i as int)),
        decreases ps.len() - i,
    {
        proof {
            assert(ps.deep_view().take(i + 1).drop_last() =~= ps.deep_view().take(i as int));
        }
        let accent = ps[i].0.clone().concat(" ");
        push_seg(out, accent, Tone::Plain);
        push_seg(out, ps[i].1.clone(), Tone::Phonetic);
        push_seg(out, String::from_str("\t"), Tone::Plain);
        proof {
            assert(segs_view(out@) =~= base + pron_segs(ps.deep_view().take(i + 1)));
        }
        i = i + 1;
    }
    proof {
        assert(ps.deep_view().take(ps.len() as int) =~= ps.deep_view());
    }
}

fn push_lines(out: &mut Vec<Segment>, ls: &Vec<String>, tone: Tone)
    ensures
        segs_view(final(out)@) == segs_view(old(out)@) + line_segs(ls.deep_view(), tone),
{
    let ghost base = segs_view(out@);
    let mut i: usize = 0;
    while i < ls.len()
        invariant
            i <= ls.len(),
            segs_view(out@) == base + line_segs(ls.deep_view().take(i as int), tone),
        decreases ls.len() - i,
    {
        proof {
            assert(ls.deep_view().take(i + 1).drop_last() =~= ls.deep_view().take(i as int));
        }
        push_seg(out, ls[i].clone(), tone);
        push_seg(out, String::from_str("\n"), Tone::Plain);
        proof {
            assert(segs_view(out@) =~= base + line_segs(ls.deep_view().take(i + 1), tone));
        }
        i = i + 1;
    }
    proof {
        assert(ls.deep_view().take(ls.len() as int) =~= ls.deep_view());
    }
}

fn push_sentences(out: &mut Vec<Segment>, ss: &Vec<(String, String)>)
    ensures
        segs_view(final(out)@) == segs_view(old(out)@) + sentence_segs(ss.deep_view()),
{
    let ghost base = segs_view(out@);
    let mut i: usize = 0;
    while i < ss.len()
        invariant
            i <= ss.len(),
            segs_view(out@) == base + sentence_segs(ss.deep_view().take(i as int)),
        decreases ss.len() - i,
    {
        proof {
            assert(ss.deep_view().take(i + 1).drop_last() =~= ss.deep_view().take(i as int));
        }
        let idx = decimal_of(i + 1).concat(". ");
        let width = idx.as_str().unicode_len();
        let gap = String::from_str("\n").concat(spaces_of(width).as_str());
        push_seg(out, idx, Tone::Plain);
        push_seg(out, ss[i].0.clone(), Tone::Original);
        push_seg(out, gap, Tone::Plain);
        push_seg(out, ss[i].1.clone(), Tone::Translation);
        push_seg(out, String::from_str("\n"), Tone::Plain);
        proof {
            assert(segs_view(out@) =~= base + sentence_segs(ss.deep_view().take(i + 1)));
        }
        i = i + 1;
    }
    proof {
        assert(ss.deep_view().take(ss.len() as int) =~= ss.deep_view());
    }
}

impl SingleEntry {
    /// The entry as pieces of text with their tones: the word, if given, then
    /// the pronunciation, glosses, variants and numbered example sentences,
    /// each optional part where `n` asks for it.
    pub fn segments(&self, word: Option<&str>, n: Normal) -> (r: Vec<Segment>)
        ensures
            segs_view(r@) == entry_segs(*self, match word {
                Some(w) => Some(w@),
                None => None,
            }, n),
    {
        let mut out: Vec<Segment> = Vec::new();
        proof {
            assert(segs_view(out@) =~= Seq::empty());
        }
        match word {
            Some(w) => {
                push_seg(&mut out, String::from_str(w), Tone::Word);
                push_seg(&mut out, String::from_str("\n"), Tone::Plain);
            },
            None => {},
        }
        if n.with_pronunciation && self.pronunciation.len() > 0 {
            push_pron(&mut out, &self.pronunciation);
            push_seg(&mut out, String::from_str("\n"), Tone::Plain);
        }
        push_lines(&mut out, &self.brief, Tone::Brief);
        if n.with_variants {
            push_lines(&mut out, &self.variants, Tone::Variant);
        }
        if n.with_sentence {
            push_sentences(&mut out, &self.sentence);
        }
        proof {
            assert(segs_view(out@) =~= entry_segs(*self, match word {
                Some(w) => Some(w@),
                None => None,
            }, n));
        }
        out
    }

    /// The entry as plain text: glosses, variants and numbered example
    /// sentences, without the pronunciation.
    pub fn render(&self) -> (r: String)
        ensures
            r@ == text_of(entry_segs(*self, None, plain_normal())),
    {
        let segs = self.segments(None, Normal { with_pronunciation: false, with_variants: true, with_sentence: true });
        let mut r = String::new();
        let mut i: usize = 0;
        while i < segs.len()
            invariant
                i <= segs.len(),
                r@ == text_of(segs_view(segs@).take(i as int)),
            decreases segs.len() - i,
        {
            proof {
                assert(segs_view(segs@).take(i + 1).drop_last() =~= segs_view(segs@).take(i as int));
            }
            r.append(segs[i].text.as_str());
            i = i + 1;
        }
        proof {
            assert(segs_view(segs@).take(segs.len() as int) =~= segs_view(segs@));
        }
        r
    }
}

} // verus!
