use charcoal::entry::SingleEntry;
use charcoal::render::{decimal_of, Normal, Tone};
use charcoal::suggestion::{resolve, Resolution};

fn entry() -> SingleEntry {
    SingleEntry {
        pronunciation: vec![("英".to_string(), "[ˈæpl]".to_string())],
        brief: vec!["n. 苹果".to_string()],
        variants: vec!["复数 apples".to_string()],
        authority: vec![],
        sentence: vec![
            ("One.".to_string(), "一。".to_string()),
            ("Two.".to_string(), "二。".to_string()),
        ],
    }
}

#[test]
fn decimal_digits() {
    assert_eq!(decimal_of(0), "0");
    assert_eq!(decimal_of(7), "7");
    assert_eq!(decimal_of(10), "10");
    assert_eq!(decimal_of(1234), "1234");
}

#[test]
fn render_shows_glosses_variants_and_numbered_sentences() {
    assert_eq!(entry().render(), "n. 苹果\n复数 apples\n1. One.\n   一。\n2. Two.\n   二。\n");
}

#[test]
fn render_numbers_past_nine_widen_the_indent() {
    let mut e = entry();
    e.brief.clear();
    e.variants.clear();
    e.sentence = (0..10).map(|i| (format!("o{}", i), format!("t{}", i))).collect();
    let text = e.render();
    assert!(text.ends_with("10. o9\n    t9\n"));
}

#[test]
fn segments_follow_the_flags() {
    let all = Normal { with_pronunciation: true, with_variants: true, with_sentence: true };
    let segs = entry().segments(Some("apple"), all);
    assert_eq!(segs[0].text, "apple");
    assert_eq!(segs[0].tone, Tone::Word);
    assert_eq!(segs[2].text, "英 ");
    assert_eq!(segs[3].text, "[ˈæpl]");
    assert_eq!(segs[3].tone, Tone::Phonetic);
    let text: String = segs.iter().map(|s| s.text.as_str()).collect();
    assert_eq!(text, "apple\n英 [ˈæpl]\t\nn. 苹果\n复数 apples\n1. One.\n   一。\n2. Two.\n   二。\n");
    let none = Normal { with_pronunciation: false, with_variants: false, with_sentence: false };
    let text: String = entry().segments(None, none).iter().map(|s| s.text.as_str()).collect();
    assert_eq!(text, "n. 苹果\n");
}

#[test]
fn resolve_found_or_suggest() {
    let refs = vec!["apple".to_string(), "ample".to_string()];
    match resolve(entry(), "apple", &refs, 5) {
        Resolution::Found(e) => assert_eq!(e.brief, vec!["n. 苹果".to_string()]),
        Resolution::Suggestions(_) => panic!("entry was found"),
    }
    let empty = SingleEntry { pronunciation: vec![], brief: vec![], variants: vec![], authority: vec![], sentence: vec![] };
    match resolve(empty, "aple", &refs, 5) {
        Resolution::Suggestions(s) => {
            assert_eq!(s.len(), 2);
            assert_eq!(s[0].word, "ample");
            assert_eq!(s[0].distance, 1);
        }
        Resolution::Found(_) => panic!("entry was empty"),
    }
}
