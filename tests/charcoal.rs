use charcoal::acquire::{cache_file_name, AcquireError, Acquisition, Action, Event, Kind, Phase};
use charcoal::cli::Toggle;
use charcoal::entry::SingleEntry;
use charcoal::query::WordQuery;
use charcoal::speech::{search_url, ExactQuery, Language, Speech};
use charcoal::suggestion::{edit_distance_of, suggest, SuggestionCandidate};
use charcoal::text::{join, keep_trimmed, squeeze_lines, trim_str};
use std::collections::HashMap;

fn strings(v: &[&str]) -> Vec<String> {
    v.iter().map(|s| s.to_string()).collect()
}

fn empty_query() -> WordQuery {
    WordQuery {
        pronunciation: vec![],
        brief: vec![],
        variants: vec![],
        authority: vec![],
        sentence: vec![],
    }
}

const PAGE: &str = "<html><body>\
<span class=\"pronounce\">英 <span class=\"phonetic\">[ˈæpl]</span></span>\
<span class=\"pronounce\">美 <span class=\"phonetic\">[ˈæpl]</span></span>\
<span class=\"pronounce\">   </span>\
<div id=\"phrsListTab\"><div class=\"trans-container\">\
<ul><li>n. 苹果</li><li>  </li><li>n. <b>苹果</b>树</li></ul>\
<p>  复数\n   apples  </p>\
</div></div>\
<div id=\"bilingual\"><ul>\
<li><p>An apple a day.</p><p>一天一个苹果。</p><p>source</p></li>\
<li><p>Red apple.</p><p>红苹果。</p></li>\
</ul></div>\
</body></html>";

#[test]
fn toggle_twitch_sets_clears_and_flips() {
    let mut b = false;
    Toggle::Y.twitch(&mut b);
    assert!(b);
    Toggle::N.twitch(&mut b);
    assert!(!b);
    Toggle::T.twitch(&mut b);
    assert!(b);
    Toggle::T.twitch(&mut b);
    assert!(!b);
}

#[test]
fn toggle_counter_twitch_is_inverse() {
    let mut b = true;
    Toggle::Y.counter_twitch(&mut b);
    assert!(!b);
    Toggle::N.counter_twitch(&mut b);
    assert!(b);
    Toggle::T.counter_twitch(&mut b);
    assert!(!b);
}

#[test]
fn empty_record_is_empty_and_not_found() {
    let q = empty_query();
    assert!(q.is_empty());
    let e = SingleEntry::from_query(q);
    assert!(e.not_found());
}

#[test]
fn any_field_makes_the_entry_found() {
    let mut q = empty_query();
    q.authority.push("x".to_string());
    assert!(!q.is_empty());
    let mut q = empty_query();
    q.sentence.push(("a".to_string(), "b".to_string()));
    assert!(!q.is_empty());
    let e = SingleEntry::from_query(q);
    assert!(!e.not_found());
    let mut q = empty_query();
    q.pronunciation.push(("en".to_string(), "x".to_string()));
    assert!(!SingleEntry::from_query(q).not_found());
}

#[test]
fn trim_str_drops_blank_text() {
    assert_eq!(trim_str("  apple \n"), Some("apple".to_string()));
    assert_eq!(trim_str(" \t\n "), None);
    assert_eq!(trim_str(""), None);
}

#[test]
fn keep_trimmed_and_join() {
    let kept = keep_trimmed(&strings(&[" a ", "  ", "b", "\n"]));
    assert_eq!(kept, strings(&["a", "b"]));
    assert_eq!(join(&kept, ", "), "a, b");
    assert_eq!(join(&vec![], ", "), "");
}

#[test]
fn squeeze_lines_rejoins_with_single_spaces() {
    assert_eq!(squeeze_lines("  a \n  b\n\n c "), "a b c");
    assert_eq!(squeeze_lines("   "), "");
}

#[test]
fn extraction_from_texts() {
    let pron = vec![strings(&["英 ", "[ˈæpl]"]), strings(&["  ", "x"]), strings(&["美", " ", "[ˈæpl]", "y"])];
    let brief = vec![strings(&["n. ", "苹果"]), strings(&[" "])];
    let variants = vec![strings(&["a\n b", "  "])];
    let originals = vec![strings(&["One."]), strings(&["Two."])];
    let translations = vec![strings(&["一。"])];
    let q = WordQuery::from_texts(&pron, &brief, &variants, &originals, &translations);
    assert_eq!(
        q.pronunciation,
        vec![("英".to_string(), "[ˈæpl]".to_string()), ("美".to_string(), "[ˈæpl]".to_string())]
    );
    assert_eq!(q.brief, strings(&["n.苹果"]));
    assert_eq!(q.variants, strings(&["a b", ""]));
    assert!(q.authority.is_empty());
    assert_eq!(q.sentence, vec![("One.".to_string(), "一。".to_string())]);
}

#[test]
fn extraction_from_page() {
    let q = WordQuery::select(PAGE).unwrap();
    assert_eq!(q.pronunciation.len(), 2);
    assert_eq!(q.pronunciation[0], ("英".to_string(), "[ˈæpl]".to_string()));
    assert_eq!(q.brief, strings(&["n. 苹果", "n.苹果树"]));
    assert_eq!(q.variants, strings(&["复数 apples"]));
    assert_eq!(
        q.sentence,
        vec![
            ("An apple a day.".to_string(), "一天一个苹果。".to_string()),
            ("Red apple.".to_string(), "红苹果。".to_string())
        ]
    );
    assert!(!q.is_empty());
}

#[test]
fn extraction_of_page_without_data_is_empty() {
    let q = WordQuery::select("<html><body><p>nothing</p></body></html>").unwrap();
    assert!(q.is_empty());
}

#[test]
fn cache_file_names() {
    assert_eq!(cache_file_name("apple", Kind::Entry), "apple.json");
    assert_eq!(cache_file_name("apple", Kind::Audio), "apple.mp3");
}

#[test]
fn machine_unexpected_event_fails() {
    let mut m = Acquisition::new(None);
    assert_eq!(m.advance(Event::Hit), Action::Fail(AcquireError::UnexpectedEvent));
    assert_eq!(m.phase, Phase::Failed);
    assert_eq!(m.advance(Event::Begin), Action::Idle);
}

#[test]
fn machine_fetch_failure_is_fatal() {
    let mut m = Acquisition::new(None);
    assert_eq!(m.advance(Event::Begin), Action::Lookup);
    assert_eq!(m.advance(Event::Miss), Action::Fetch);
    assert_eq!(m.advance(Event::FetchFailed), Action::Fail(AcquireError::RemoteFetchFailure));
}

#[test]
fn machine_publish_failure_and_lost_file() {
    let mut m = Acquisition::new(None);
    m.advance(Event::Begin);
    m.advance(Event::Miss);
    m.advance(Event::Fetched);
    assert_eq!(m.advance(Event::PublishFailed), Action::Fail(AcquireError::StoreFailure));
    let mut m = Acquisition::new(None);
    m.advance(Event::Begin);
    m.advance(Event::Miss);
    m.advance(Event::Fetched);
    assert_eq!(m.advance(Event::Published), Action::Lookup);
    assert_eq!(m.advance(Event::Miss), Action::Fail(AcquireError::CacheMiss));
}

/// Runs one acquisition against an in-memory cache and a counting fetcher.
fn run(
    store: &mut HashMap<String, Vec<u8>>,
    fetches: &mut usize,
    word: &str,
    kind: Kind,
    blocked: Option<AcquireError>,
    remote: &dyn Fn() -> Option<Vec<u8>>,
) -> Result<Vec<u8>, AcquireError> {
    let name = cache_file_name(word, kind);
    let mut m = Acquisition::new(blocked);
    let mut held: Vec<u8> = Vec::new();
    let mut action = m.advance(Event::Begin);
    loop {
        let event = match action {
            Action::Lookup => match store.get(&name) {
                Some(d) => {
                    held = d.clone();
                    Event::Hit
                }
                None => Event::Miss,
            },
            Action::Fetch => {
                *fetches += 1;
                match remote() {
                    Some(d) => {
                        held = d;
                        Event::Fetched
                    }
                    None => Event::FetchFailed,
                }
            }
            Action::Publish => {
                store.insert(name.clone(), held.clone());
                Event::Published
            }
            Action::Deliver => return Ok(held),
            Action::Fail(e) => return Err(e),
            Action::Idle => return Err(AcquireError::UnexpectedEvent),
        };
        action = m.advance(event);
    }
}

fn entry_bytes(page: &str) -> Option<Vec<u8>> {
    let q = WordQuery::select(page).ok()?;
    Some(q.brief.join("\n").into_bytes())
}

#[test]
fn cached_entry_is_returned_without_fetch() {
    let mut store = HashMap::new();
    store.insert("apple.json".to_string(), b"n. apple".to_vec());
    let mut fetches = 0;
    let r = run(&mut store, &mut fetches, "apple", Kind::Entry, None, &|| entry_bytes(PAGE));
    assert_eq!(r, Ok(b"n. apple".to_vec()));
    assert_eq!(fetches, 0);
}

#[test]
fn apple_fetched_once_then_cached() {
    let mut store = HashMap::new();
    let mut fetches = 0;
    let first = run(&mut store, &mut fetches, "apple", Kind::Entry, None, &|| entry_bytes(PAGE)).unwrap();
    assert_eq!(fetches, 1);
    assert!(!first.is_empty());
    assert!(store.contains_key("apple.json"));
    let second = run(&mut store, &mut fetches, "apple", Kind::Entry, None, &|| entry_bytes(PAGE)).unwrap();
    assert_eq!(fetches, 1);
    assert_eq!(first, second);
}

#[test]
fn empty_entry_is_cached_too() {
    let mut store = HashMap::new();
    let mut fetches = 0;
    let page = "<html><body></body></html>";
    let first = run(&mut store, &mut fetches, "xyzzqq", Kind::Entry, None, &|| entry_bytes(page)).unwrap();
    assert!(first.is_empty());
    let second = run(&mut store, &mut fetches, "xyzzqq", Kind::Entry, None, &|| entry_bytes(page)).unwrap();
    assert_eq!(fetches, 1);
    assert_eq!(first, second);
}

#[test]
fn unsupported_speech_fails_before_fetch() {
    let q = ExactQuery { word: "xyz".to_string(), lang: Language::Unsupported };
    assert_eq!(Speech::url(&q), Err(AcquireError::UnsupportedLanguage));
    let blocked = Speech::blocked(&q);
    assert_eq!(blocked, Some(AcquireError::UnsupportedLanguage));
    let mut store = HashMap::new();
    let mut fetches = 0;
    let r = run(&mut store, &mut fetches, &q.word, Kind::Audio, blocked, &|| Some(vec![1, 2, 3]));
    assert_eq!(r, Err(AcquireError::UnsupportedLanguage));
    assert_eq!(fetches, 0);
    assert!(store.is_empty());
}

#[test]
fn speech_urls_by_language() {
    let q = ExactQuery { word: "apple".to_string(), lang: Language::English };
    assert_eq!(
        Speech::url(&q).unwrap(),
        "https://translate.google.com/translate_tts?ie=UTF-8&client=tw-ob&tl=en&q=apple"
    );
    let q = ExactQuery { word: "pomme".to_string(), lang: Language::French };
    assert!(Speech::url(&q).unwrap().contains("tl=fr&q=pomme"));
    let q = ExactQuery { word: "苹果".to_string(), lang: Language::Mandarin };
    assert!(Speech::url(&q).unwrap().contains("tl=zh_cn&q="));
    assert_eq!(Speech::blocked(&q), None);
}

#[test]
fn speech_fetched_once_then_cached() {
    let q = ExactQuery { word: "apple".to_string(), lang: Language::English };
    let mut store = HashMap::new();
    let mut fetches = 0;
    let a = run(&mut store, &mut fetches, &q.word, Kind::Audio, Speech::blocked(&q), &|| Some(vec![7, 8])).unwrap();
    let b = run(&mut store, &mut fetches, &q.word, Kind::Audio, Speech::blocked(&q), &|| Some(vec![9])).unwrap();
    assert_eq!(a, vec![7, 8]);
    assert_eq!(b, vec![7, 8]);
    assert_eq!(fetches, 1);
    assert!(store.contains_key("apple.mp3"));
}

#[test]
fn exact_query_trims() {
    let q = ExactQuery::new("  apple \n");
    assert_eq!(q.word, "apple");
    let q = ExactQuery::new("The quick brown fox jumps over the lazy dog and keeps running");
    assert_eq!(q.lang, Language::English);
}

#[test]
fn search_urls() {
    assert_eq!(search_url("apple").unwrap(), "http://dict.youdao.com/search?q=apple");
    assert_eq!(search_url("ice cream").unwrap(), "http://dict.youdao.com/search?q=ice%20cream");
}

#[test]
fn edit_distances() {
    let d = |a: &str, b: &str| edit_distance_of(&a.chars().collect(), &b.chars().collect());
    assert_eq!(d("kitten", "sitting"), 3);
    assert_eq!(d("", "abc"), 3);
    assert_eq!(d("abc", ""), 3);
    assert_eq!(d("apple", "apple"), 0);
    assert_eq!(d("flaw", "lawn"), 2);
}

fn pairs(r: &[SuggestionCandidate]) -> Vec<(String, usize)> {
    r.iter().map(|c| (c.word.clone(), c.distance)).collect()
}

#[test]
fn exact_match_is_suggested_first() {
    let refs = strings(&["maple", "apply", "apple", "ample", "banana"]);
    let r = suggest("apple", &refs, 5);
    assert_eq!(
        pairs(&r),
        vec![
            ("apple".to_string(), 0),
            ("ample".to_string(), 1),
            ("apply".to_string(), 1),
            ("maple".to_string(), 2),
            ("banana".to_string(), 5)
        ]
    );
}

#[test]
fn suggestions_ignore_case_and_keep_the_limit() {
    let refs = strings(&["Apple", "apply", "zebra", "ample"]);
    let r = suggest("APPLE", &refs, 2);
    assert_eq!(pairs(&r), vec![("Apple".to_string(), 0), ("ample".to_string(), 1)]);
    assert!(suggest("apple", &refs, 0).is_empty());
    assert!(suggest("apple", &vec![], 5).is_empty());
}

#[test]
fn suggestions_for_a_word_without_entry() {
    let refs = strings(&["xyzzy", "quiz", "fizz", "apple", "zebra", "buzz"]);
    let r = suggest("xyzzqq", &refs, 5);
    assert_eq!(r.len(), 5);
    for w in r.windows(2) {
        assert!(w[0].distance < w[1].distance || (w[0].distance == w[1].distance && w[0].word <= w[1].word));
    }
    assert_eq!(r[0].word, "xyzzy");
    assert_eq!(r[0].distance, 2);
}
