use vstd::prelude::*;
use crate::acquire::{acquire, cache_name, AcquireError, Action, Kind, World};
use crate::text::{trim, trimmed};

verus! {

/// The language of a word, as far as the library tells them apart.
#[derive(Clone, Copy, Debug, PartialEq, Eq, Structural)]
pub enum Language {
    English,
    French,
    Mandarin,
    Unsupported,
}

/// The language that `whatlang` detects in `s`.
pub uninterp spec fn detected_language(s: Seq<char>) -> Language;

/// Relies on `whatlang::detect_lang`: the detected language, which depends on
/// the text alone; no detection, or a language other than these three, is
/// `Unsupported`.
#[verifier::external_body]
fn detect_language(s: &str) -> (r: Language)
    ensures
        r == detected_language(s@),
{
    match whatlang::detect_lang(s) {
        Some(whatlang::Lang::Eng) => Language::English,
        Some(whatlang::Lang::Fra) => Language::French,
        Some(whatlang::Lang::Cmn) => Language::Mandarin,
        _ => Language::Unsupported,
    }
}

/// What `url::Url::parse` makes of `s`, as text, or `None` where it refuses it.
pub uninterp spec fn parsed_url(s: Seq<char>) -> Option<Seq<char>>;

/// Relies on `url::Url::parse` and `url::Url::as_str`: the parsed and
/// percent-encoded URL, which depends on `s` alone.
#[verifier::external_body]
fn parse_url(s: &str) -> (r: Option<String>)
    ensures
        r.deep_view() == parsed_url(s@),
{
    match url::Url::parse(s) {
        Ok(u) => Some(u.as_str().to_string()),
        Err(_) => None,
    }
}

/// A word as the user asked for it: trimmed, with its detected language.
#[derive(Clone, Debug)]
pub struct ExactQuery {
    pub word: String,
    pub lang: Language,
}

impl ExactQuery {
    /// Trims the raw input and detects the language of what is left; this
    /// never fails.
    pub fn new(raw: &str) -> (r: ExactQuery)
        ensures
            r.word@ == trimmed(raw@),
            r.lang == detected_language(trimmed(raw@)),
    {
        let word = trim(raw);
        let lang = detect_language(word.as_str());
        ExactQuery { word, lang }
    }
}

/// The language code of the speech source, for the languages it has.
pub open spec fn speech_code(l: Language) -> Option<Seq<char>> {
    match l {
        Language::English => Some("en"@),
        Language::French => Some("fr"@),
        Language::Mandarin => Some("zh_cn"@),
        Language::Unsupported => None,
    }
}

/// Why the speech source cannot be asked for a word in `l`, if it cannot.
pub open spec fn speech_blocked(l: Language) -> Option<AcquireError> {
    if speech_code(l) is None {
        Some(AcquireError::UnsupportedLanguage)
    } else {
        None
    }
}

pub open spec fn speech_prefix() -> Seq<char> {
    "https://translate.google.com/translate_tts?ie=UTF-8&client=tw-ob&tl="@
}

pub open spec fn search_prefix() -> Seq<char> {
    "http://dict.youdao.com/search?q="@
}

/// The spoken pronunciation of a word: fetched, cached and played.
pub struct Speech;

impl Speech {
    /// The address of the spoken word, for a language that the speech source has.
    pub fn url(q: &ExactQuery) -> (r: Result<String, AcquireError>)
        ensures
            match speech_code(q.lang) {
                Some(code) => r is Ok && r->Ok_0@ == speech_prefix() + code + "&q="@ + q.word@,
                None => r == Err::<String, AcquireError>(AcquireError::UnsupportedLanguage),
            },
    {
        let code = match q.lang {
            Language::English => "en",
            Language::French => "fr",
            Language::Mandarin => "zh_cn",
            Language::Unsupported => {
                return Err(AcquireError::UnsupportedLanguage);
            },
        };
        let u = String::from_str("https://translate.google.com/translate_tts?ie=UTF-8&client=tw-ob&tl=");
        let u = u.concat(code);
        let u = u.concat("&q=");
        Ok(u.concat(q.word.as_str()))
    }

    /// Why the speech source cannot be asked for this word, if it cannot.
    pub fn blocked(q: &ExactQuery) -> (r: Option<AcquireError>)
        ensures
            r == speech_blocked(q.lang),
    {
        match Speech::url(q) {
            Ok(_) => None,
            Err(e) => Some(e),
        }
    }
}

/// The address of the dictionary search for a word, or `None` where the URL
/// parser refuses it.
pub fn search_url(word: &str) -> (r: Option<String>)
    ensures
        r.deep_view() == parsed_url(search_prefix() + word@),
{
    let u = String::from_str("http://dict.youdao.com/search?q=");
    let u = u.concat(word);
    parse_url(u.as_str())
}

/// Speech for a word in a language without a speech source fails with
/// `UnsupportedLanguage` before any fetch, unless the clip is cached already.
pub proof fn lemma_unsupported_speech_never_fetches(w: World, word: Seq<char>, lang: Language)
    requires
        speech_code(lang) is None,
        !w.store.contains_key(cache_name(word, Kind::Audio)),
    ensures
        ({
            let (s, w2, a) = acquire(w, cache_name(word, Kind::Audio), speech_blocked(lang));
            &&& a == Action::Fail(AcquireError::UnsupportedLanguage)
            &&& w2.fetches == w.fetches
        }),
{
    crate::acquire::lemma_blocked_fails_before_fetch(
        w,
        cache_name(word, Kind::Audio),
        AcquireError::UnsupportedLanguage,
    );
}

} // verus!
