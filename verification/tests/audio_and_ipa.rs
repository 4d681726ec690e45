use vocab_lessons::audio::{audio_plan, cambridge_entry, cambridge_url, parse_cambridge_page};
use vocab_lessons::ipa::{
    blank, ipa_results, new_word_ipa, new_word_response, parse_word_list, required_text,
    IpaResponse, JsonField, JsonItem,
};

fn s(x: &str) -> String {
    x.to_string()
}

#[test]
fn audio_plan_for_a_word() {
    let p = audio_plan("Ice Cream", "UK", "https://cdn.example.com/audio//").unwrap();
    assert_eq!(p.accent, "uk");
    assert_eq!(p.file_name, "ice-cream.mp3");
    assert_eq!(p.remote_url, "https://cdn.example.com/audio/uk/ice-cream.mp3");
    assert_eq!(
        p.tts_url,
        "https://translate.google.com/translate_tts?ie=UTF-8&q=Ice%20Cream&tl=en-GB&client=tw-ob"
    );
    let p = audio_plan("café", "us", "http://x").unwrap();
    assert_eq!(p.file_name, "caf.mp3");
    assert_eq!(p.remote_url, "http://x/us/caf.mp3");
    assert_eq!(
        p.tts_url,
        "https://translate.google.com/translate_tts?ie=UTF-8&q=caf%C3%A9&tl=en-US&client=tw-ob"
    );
}

#[test]
fn no_audio_plan_for_unknown_accents_or_empty_names() {
    assert!(audio_plan("cat", "au", "http://x").is_none());
    assert!(audio_plan("???", "uk", "http://x").is_none());
}

#[test]
fn dictionary_address_is_percent_encoded() {
    assert_eq!(cambridge_url("look up"), "https://dictionary.cambridge.org/dictionary/english/look%20up");
    assert_eq!(cambridge_url("a-b_c.d~e"), "https://dictionary.cambridge.org/dictionary/english/a-b_c.d~e");
    assert_eq!(cambridge_url("x/y?"), "https://dictionary.cambridge.org/dictionary/english/x%2Fy%3F");
}

#[test]
fn dictionary_page_is_read() {
    let html = r#"<html><body>
        <span class="uk dpron-i"><span class="pron"><span class="ipa"> kæt </span></span>
            <audio><source type="audio/mpeg" src="/media/uk/cat.mp3"></audio></span>
        <span class="us dpron-i"><span class="ipa">kæt̬</span>
            <audio><source type="audio/mpeg" src="https://cdn.example.com/us/cat.mp3"></audio></span>
        </body></html>"#;
    let e = parse_cambridge_page(html);
    assert_eq!(e.uk_ipa.as_deref(), Some("kæt"));
    assert_eq!(e.us_ipa.as_deref(), Some("kæt̬"));
    assert_eq!(e.uk_url.as_deref(), Some("https://dictionary.cambridge.org/media/uk/cat.mp3"));
    assert_eq!(e.us_url.as_deref(), Some("https://cdn.example.com/us/cat.mp3"));
}

#[test]
fn british_transcription_falls_back_to_any() {
    let html = r#"<html><body><span class="ipa">dɒɡ</span></body></html>"#;
    let e = parse_cambridge_page(html);
    assert_eq!(e.uk_ipa.as_deref(), Some("dɒɡ"));
    assert!(e.us_ipa.is_none() && e.uk_url.is_none() && e.us_url.is_none());
    assert!(new_word_ipa(&e).is_some());
    let empty = parse_cambridge_page("<html></html>");
    assert!(new_word_ipa(&empty).is_none());
}

#[test]
fn blank_transcriptions_are_dropped() {
    let e = cambridge_entry(Some(s("   ")), Some(s(" x ")), None, None, Some(s("/a.mp3")));
    assert!(e.uk_ipa.is_none());
    assert_eq!(e.us_ipa.as_deref(), Some("x"));
    assert_eq!(e.us_url.as_deref(), Some("https://dictionary.cambridge.org/a.mp3"));
    let n = new_word_ipa(&e).unwrap();
    assert_eq!((n.ipa.as_str(), n.uk.as_str(), n.us.as_str()), ("x", "", "x"));
}

#[test]
fn word_lists_from_json() {
    let words = parse_word_list(r#"["cat", {"word": "dog"}, {"text": "cow"}, 3, {"word": 5, "text": "hen"}, {"other": "x"}]"#, "bad").unwrap();
    assert_eq!(words, vec![s("cat"), s("dog"), s("cow")]);
    assert_eq!(parse_word_list(r#"["a","b"]"#, "bad").unwrap(), vec![s("a"), s("b")]);
    assert_eq!(parse_word_list("{\"word\": \"x\"}", "bad"), Err(s("bad")));
    assert_eq!(parse_word_list("not json", "bad"), Err(s("bad")));
}

#[test]
fn request_fields() {
    let payload = JsonItem::Object(vec![(s("unitId"), JsonField::Text(s("u7")))]);
    assert_eq!(required_text(&payload, "unit_id", "unitId", "missing unit id"), Ok(s("u7")));
    let payload = JsonItem::Object(vec![(s("unit_id"), JsonField::Other), (s("unitId"), JsonField::Text(s("u7")))]);
    assert_eq!(required_text(&payload, "unit_id", "unitId", "missing unit id"), Err(s("missing unit id")));
    assert_eq!(required_text(&JsonItem::Other, "unit_id", "unitId", "missing unit id"), Err(s("missing unit id")));
    let payload = JsonItem::Object(vec![(s("word_id"), JsonField::Text(s("w1")))]);
    assert_eq!(required_text(&payload, "word_id", "wordId", "missing word id"), Ok(s("w1")));
}

fn found(word: &str) -> Option<IpaResponse> {
    Some(IpaResponse { id: Some(format!("id-{word}")), meaning: None, uk_ipa: None, us_ipa: None, word: Some(s(word)) })
}

#[test]
fn answers_for_word_lists() {
    let words = vec![s("cat"), s("  "), s("zzz"), s("dog")];
    let r = ipa_results(&words, vec![found("cat"), None, None, found("dog")], false);
    let got: Vec<Option<String>> = r.iter().map(|x| x.word.clone()).collect();
    assert_eq!(got, vec![Some(s("cat")), None, None, Some(s("dog"))]);
    let r = ipa_results(&words, vec![found("cat"), None, None, found("dog")], true);
    let got: Vec<Option<String>> = r.iter().map(|x| x.word.clone()).collect();
    assert_eq!(got, vec![Some(s("cat")), None, Some(s("dog"))]);
    assert!(blank(" \t"));
    assert!(!blank(" a "));
}

#[test]
fn answers_for_new_words() {
    let e = cambridge_entry(Some(s("a")), None, None, None, None);
    let r = new_word_response(s("word-1"), s("apple"), e);
    assert_eq!(r.id.as_deref(), Some("word-1"));
    assert_eq!(r.word.as_deref(), Some("apple"));
    assert_eq!(r.uk_ipa.as_deref(), Some("a"));
    assert!(r.meaning.is_none() && r.us_ipa.is_none());
}

#[test]
fn file_answers_are_content_answers_without_blanks() {
    let words = vec![s(""), s("cat"), s(" "), s("zzz")];
    let all = ipa_results(&words, vec![None, found("cat"), None, None], false);
    let skipped = ipa_results(&words, vec![None, found("cat"), None, None], true);
    let kept: Vec<Option<String>> = all
        .iter()
        .zip(words.iter())
        .filter(|(_, w)| !blank(w))
        .map(|(x, _)| x.word.clone())
        .collect();
    let got: Vec<Option<String>> = skipped.iter().map(|x| x.word.clone()).collect();
    assert_eq!(got, kept);
    assert_eq!(got, vec![Some(s("cat")), None]);
}
