use vstd::prelude::*;
use vstd::utf8::encode_utf8;

use crate::text::{
    ascii_lower_seq, ascii_lowercase, chars_of, concat2, concat3, owned, str_eq, string_of, trim,
    trim_spec,
};
use crate::words::{filename_spec, normalize_word_to_filename};

verus! {

// ---------------------------------------------------------------------------
// Percent-encoding
// ---------------------------------------------------------------------------

/// The bytes left as they are by percent-encoding: ASCII letters and digits,
/// `-`, `.`, `_` and `~`.
pub open spec fn is_unreserved(b: u8) -> bool {
    (48 <= b <= 57) || (65 <= b <= 90) || (97 <= b <= 122) || b == 45 || b == 46 || b == 95 || b
        == 126
}

/// An uppercase hexadecimal digit.
pub open spec fn hex_digit(d: u8) -> char {
    if d < 10 {
        (48 + d) as char
    } else {
        (55 + d) as char
    }
}

pub open spec fn percent_encode_byte(b: u8) -> Seq<char> {
    if is_unreserved(b) {
        seq![b as char]
    } else {
        seq!['%', hex_digit(b / 16), hex_digit(b % 16)]
    }
}

pub open spec fn percent_encode_bytes(bs: Seq<u8>) -> Seq<char>
    decreases bs.len(),
{
    if bs.len() == 0 {
        seq![]
    } else {
        percent_encode_byte(bs[0]) + percent_encode_bytes(bs.drop_first())
    }
}

/// The UTF-8 bytes of `s`, each percent-encoded unless unreserved.
pub open spec fn url_encode_spec(s: Seq<char>) -> Seq<char> {
    percent_encode_bytes(encode_utf8(s))
}

/// Calls `urlencoding::encode`, which (by its documentation and source)
/// percent-encodes every UTF-8 byte of the text except ASCII letters, digits,
/// `-`, `.`, `_` and `~`, writing `%` and two uppercase hexadecimal digits.
#[verifier::external_body]
fn url_encode(s: &str) -> (r: String)
    ensures
        r@ == url_encode_spec(s@),
{
    urlencoding::encode(s).into_owned()
}

// ---------------------------------------------------------------------------
// Word audio
// ---------------------------------------------------------------------------

/// Where the audio of a word is looked for and fetched from.
#[derive(Debug)]
pub struct AudioPlan {
    /// `uk` or `us`: the directory of the accent.
    pub accent: String,
    /// The file name of the audio: the word's file name stem and `.mp3`.
    pub file_name: String,
    /// The audio service's address of the file.
    pub remote_url: String,
    /// The speech service's address that reads the word aloud.
    pub tts_url: String,
}

/// `s` without the `/` characters at its end.
pub open spec fn trim_end_slashes(s: Seq<char>) -> Seq<char>
    decreases s.len(),
{
    if s.len() > 0 && s.last() == '/' {
        trim_end_slashes(s.drop_last())
    } else {
        s
    }
}

fn trim_trailing_slashes(s: &str) -> (r: String)
    ensures
        r@ == trim_end_slashes(s@),
{
    let cs = chars_of(s);
    let mut n: usize = cs.len();
    assert(cs@.take(n as int) =~= cs@);
    while n > 0 && cs[n - 1] == '/'
        invariant
            n <= cs.len(),
            cs@ == s@,
            trim_end_slashes(s@) == trim_end_slashes(cs@.take(n as int)),
        decreases n,
    {
        assert(cs@.take(n as int).drop_last() =~= cs@.take(n - 1));
        n = n - 1;
    }
    let mut out: Vec<char> = Vec::new();
    let mut i: usize = 0;
    while i < n
        invariant
            i <= n <= cs.len(),
            out@ == cs@.take(i as int),
        decreases n - i,
    {
        out.push(cs[i]);
        i = i + 1;
        assert(out@ =~= cs@.take(i as int));
    }
    string_of(&out)
}

/// The accent asked for, in ASCII lowercase, when it is `uk` or `us`.
pub open spec fn accent_spec(accent: Seq<char>) -> Option<Seq<char>> {
    let a = ascii_lower_seq(accent);
    if a == "uk"@ || a == "us"@ {
        Some(a)
    } else {
        None
    }
}

/// The language of the speech service for an accent.
pub open spec fn tts_language(accent: Seq<char>) -> Seq<char> {
    if accent == "uk"@ {
        "en-GB"@
    } else {
        "en-US"@
    }
}

/// How to find the audio of a word in an accent, given the base address of the
/// audio service: none when the word has no file name stem or the accent is
/// neither `uk` nor `us` (in any case).
pub open spec fn audio_plan_spec(word: Seq<char>, accent: Seq<char>, base_url: Seq<char>, plan: Option<AudioPlan>) -> bool {
    let stem = filename_spec(word);
    if stem.len() == 0 || accent_spec(accent) is None {
        plan is None
    } else {
        let a = accent_spec(accent)->0;
        &&& plan is Some
        &&& plan->0.accent@ == a
        &&& plan->0.file_name@ == stem + ".mp3"@
        &&& plan->0.remote_url@ == trim_end_slashes(base_url) + "/"@ + a + "/"@ + stem + ".mp3"@
        &&& plan->0.tts_url@ == "https://translate.google.com/translate_tts?ie=UTF-8&q="@
            + url_encode_spec(word) + "&tl="@ + tts_language(a) + "&client=tw-ob"@
    }
}

pub fn audio_plan(word: &str, accent: &str, base_url: &str) -> (r: Option<AudioPlan>)
    ensures
        audio_plan_spec(word@, accent@, base_url@, r),
{
    let stem = normalize_word_to_filename(word);
    if stem.as_str().is_empty() {
        return None;
    }
    let a = ascii_lowercase(accent);
    let is_uk = str_eq(a.as_str(), "uk");
    let is_us = str_eq(a.as_str(), "us");
    if !is_uk && !is_us {
        return None;
    }
    let file_name = concat2(stem.as_str(), ".mp3");
    let base = trim_trailing_slashes(base_url);
    let mut remote_url = concat3(base.as_str(), "/", a.as_str());
    remote_url.append("/");
    remote_url.append(file_name.as_str());
    let lang = if is_uk {
        "en-GB"
    } else {
        "en-US"
    };
    let encoded = url_encode(word);
    let mut tts_url = concat3(
        "https://translate.google.com/translate_tts?ie=UTF-8&q=",
        encoded.as_str(),
        "&tl=",
    );
    tts_url.append(lang);
    tts_url.append("&client=tw-ob");
    let plan = AudioPlan { accent: a, file_name, remote_url, tts_url };
    assert(plan.remote_url@ =~= trim_end_slashes(base_url@) + "/"@ + plan.accent@ + "/"@ + stem@
        + ".mp3"@);
    Some(plan)
}

// ---------------------------------------------------------------------------
// Dictionary pages
// ---------------------------------------------------------------------------

/// The dictionary page of a word: the address of the dictionary followed by
/// the percent-encoded word.
pub fn cambridge_url(word: &str) -> (r: String)
    ensures
        r@ == "https://dictionary.cambridge.org/dictionary/english/"@ + url_encode_spec(word@),
{
    let encoded = url_encode(word);
    concat2("https://dictionary.cambridge.org/dictionary/english/", encoded.as_str())
}

/// What `scraper` finds in an HTML document for a CSS selector: the text of
/// the first matching element, or nothing when no element matches or the
/// selector does not parse.
pub uninterp spec fn html_first_text(html: Seq<char>, selector: Seq<char>) -> Option<Seq<char>>;

/// What `scraper` finds in an HTML document for a CSS selector and an
/// attribute: the value of the attribute on the first matching element, or
/// nothing when no element matches, that element lacks the attribute, or the
/// selector does not parse.
pub uninterp spec fn html_first_attr(html: Seq<char>, selector: Seq<char>, attr: Seq<char>) -> Option<
    Seq<char>,
>;

pub open spec fn opt_view(o: Option<String>) -> Option<Seq<char>> {
    match o {
        Some(s) => Some(s@),
        None => None,
    }
}

/// Parses the document with `scraper::Html::parse_document` and the selector
/// with `scraper::Selector::parse`, and collects the text of the first match
/// of `Html::select`. The result is named `html_first_text`; its value is left
/// to `scraper`.
#[verifier::external_body]
fn select_first_text(html: &str, selector: &str) -> (r: Option<String>)
    ensures
        opt_view(r) == html_first_text(html@, selector@),
{
    let document = scraper::Html::parse_document(html);
    let parsed = scraper::Selector::parse(selector).ok()?;
    let first = document.select(&parsed).next();
    first.map(|e| e.text().collect::<String>())
}

/// Parses the document with `scraper::Html::parse_document` and the selector
/// with `scraper::Selector::parse`, and reads an attribute of the first match
/// of `Html::select`. The result is named `html_first_attr`; its value is left
/// to `scraper`.
#[verifier::external_body]
fn select_first_attr(html: &str, selector: &str, attr: &str) -> (r: Option<String>)
    ensures
        opt_view(r) == html_first_attr(html@, selector@, attr@),
{
    let document = scraper::Html::parse_document(html);
    let parsed = scraper::Selector::parse(selector).ok()?;
    let first = document.select(&parsed).next();
    first.and_then(|e| e.value().attr(attr)).map(|s| s.to_string())
}

/// What the dictionary page gives of a word: its British and American
/// transcriptions and the addresses of its British and American audio.
#[derive(Debug)]
pub struct CambridgeEntry {
    pub uk_ipa: Option<String>,
    pub us_ipa: Option<String>,
    pub uk_url: Option<String>,
    pub us_url: Option<String>,
}

/// A found text, trimmed, when something is left of it.
pub open spec fn trimmed_nonempty(o: Option<Seq<char>>) -> Option<Seq<char>> {
    match o {
        Some(t) => if trim_spec(t).len() > 0 {
            Some(trim_spec(t))
        } else {
            None
        },
        None => None,
    }
}

/// An audio address of the page: as it is when it starts with `http`,
/// otherwise taken as a path on the dictionary's host.
pub open spec fn absolute_url_spec(src: Seq<char>) -> Seq<char> {
    if src.len() >= 4 && src.take(4) == "http"@ {
        src
    } else {
        "https://dictionary.cambridge.org"@ + src
    }
}

pub open spec fn opt_absolute_url(o: Option<Seq<char>>) -> Option<Seq<char>> {
    match o {
        Some(s) => Some(absolute_url_spec(s)),
        None => None,
    }
}

/// The entry made from what the page shows: the British transcription falls
/// back to the first transcription of any kind.
pub open spec fn cambridge_entry_spec(
    uk_text: Option<Seq<char>>,
    us_text: Option<Seq<char>>,
    any_text: Option<Seq<char>>,
    uk_src: Option<Seq<char>>,
    us_src: Option<Seq<char>>,
    e: CambridgeEntry,
) -> bool {
    &&& opt_view(e.uk_ipa) == match trimmed_nonempty(uk_text) {
        Some(t) => Some(t),
        None => trimmed_nonempty(any_text),
    }
    &&& opt_view(e.us_ipa) == trimmed_nonempty(us_text)
    &&& opt_view(e.uk_url) == opt_absolute_url(uk_src)
    &&& opt_view(e.us_url) == opt_absolute_url(us_src)
}

fn trim_nonempty(o: Option<String>) -> (r: Option<String>)
    ensures
        opt_view(r) == trimmed_nonempty(opt_view(o)),
{
    match o {
        Some(t) => {
            let s = trim(t.as_str());
            if s.as_str().is_empty() {
                None
            } else {
                Some(s)
            }
        },
        None => None,
    }
}

/// Whether `s` starts with `http`.
fn starts_with_http(s: &str) -> (r: bool)
    ensures
        r == (s@.len() >= 4 && s@.take(4) == "http"@),
{
    let cs = chars_of(s);
    proof {
        reveal_strlit("http");
    }
    if cs.len() < 4 {
        return false;
    }
    let r = cs[0] == 'h' && cs[1] == 't' && cs[2] == 't' && cs[3] == 'p';
    if r {
        assert(s@.take(4) =~= "http"@);
    } else {
        assert(s@.take(4)[0] != 'h' || s@.take(4)[1] != 't' || s@.take(4)[2] != 't' || s@.take(4)[3]
            != 'p');
    }
    r
}

fn absolute_url(o: Option<String>) -> (r: Option<String>)
    ensures
        opt_view(r) == opt_absolute_url(opt_view(o)),
{
    match o {
        Some(s) => {
            if starts_with_http(s.as_str()) {
                Some(s)
            } else {
                Some(concat2("https://dictionary.cambridge.org", s.as_str()))
            }
        },
        None => None,
    }
}

/// Builds the entry of a word from what was found on its page.
pub fn cambridge_entry(
    uk_text: Option<String>,
    us_text: Option<String>,
    any_text: Option<String>,
    uk_src: Option<String>,
    us_src: Option<String>,
) -> (r: CambridgeEntry)
    ensures
        cambridge_entry_spec(
            opt_view(uk_text),
            opt_view(us_text),
            opt_view(any_text),
            opt_view(uk_src),
            opt_view(us_src),
            r,
        ),
{
    let uk = trim_nonempty(uk_text);
    let uk_ipa = match uk {
        Some(t) => Some(t),
        None => trim_nonempty(any_text),
    };
    CambridgeEntry {
        uk_ipa,
        us_ipa: trim_nonempty(us_text),
        uk_url: absolute_url(uk_src),
        us_url: absolute_url(us_src),
    }
}

/// Reads the transcriptions and audio addresses of a word from its page.
pub fn parse_cambridge_page(html: &str) -> (r: CambridgeEntry)
    ensures
        cambridge_entry_spec(
            html_first_text(html@, "span.uk .ipa"@),
            html_first_text(html@, "span.us .ipa"@),
            html_first_text(html@, "span.ipa"@),
            html_first_attr(html@, "span.uk source[type=\"audio/mpeg\"]"@, "src"@),
            html_first_attr(html@, "span.us source[type=\"audio/mpeg\"]"@, "src"@),
            r,
        ),
{
    let uk_text = select_first_text(html, "span.uk .ipa");
    let us_text = select_first_text(html, "span.us .ipa");
    let any_text = select_first_text(html, "span.ipa");
    let uk_src = select_first_attr(html, "span.uk source[type=\"audio/mpeg\"]", "src");
    let us_src = select_first_attr(html, "span.us source[type=\"audio/mpeg\"]", "src");
    cambridge_entry(uk_text, us_text, any_text, uk_src, us_src)
}

} // verus!
