use vstd::prelude::*;

use crate::audio::{opt_view, CambridgeEntry};
use crate::text::{owned, str_eq, trim, trim_spec};

verus! {

// ---------------------------------------------------------------------------
// JSON values
// ---------------------------------------------------------------------------

/// A field of a JSON object: a string, or any other value.
#[derive(Debug)]
pub enum JsonField {
    Text(String),
    Other,
}

/// A JSON value as far as requests read it: a string, an object with its
/// fields, or any other value.
#[derive(Debug)]
pub enum JsonItem {
    Text(String),
    Object(Vec<(String, JsonField)>),
    Other,
}

/// The value of the first field named `key`, if any.
pub open spec fn field_of(fields: Seq<(String, JsonField)>, key: Seq<char>) -> Option<JsonField>
    decreases fields.len(),
{
    if fields.len() == 0 {
        None
    } else if fields[0].0@ == key {
        Some(fields[0].1)
    } else {
        field_of(fields.drop_first(), key)
    }
}

/// The text under `key` of an object, or under `alt_key` when it has no field
/// `key`; nothing when the field found is not a string or the value is not an
/// object.
pub open spec fn text_field_spec(item: JsonItem, key: Seq<char>, alt_key: Seq<char>) -> Option<
    Seq<char>,
> {
    match item {
        JsonItem::Object(fields) => {
            let f = match field_of(fields@, key) {
                Some(v) => Some(v),
                None => field_of(fields@, alt_key),
            };
            match f {
                Some(JsonField::Text(s)) => Some(s@),
                _ => None,
            }
        },
        _ => None,
    }
}

fn find_field<'a>(fields: &'a Vec<(String, JsonField)>, key: &str) -> (r: Option<&'a JsonField>)
    ensures
        match r {
            Some(v) => field_of(fields@, key@) == Some(*v),
            None => field_of(fields@, key@) is None,
        },
{
    let mut i: usize = 0;
    assert(fields@.skip(0) =~= fields@);
    while i < fields.len()
        invariant
            i <= fields.len(),
            field_of(fields@, key@) == field_of(fields@.skip(i as int), key@),
        decreases fields.len() - i,
    {
        assert(fields@.skip(i as int)[0] == fields@[i as int]);
        if str_eq(fields[i].0.as_str(), key) {
            return Some(&fields[i].1);
        }
        assert(fields@.skip(i as int).drop_first() =~= fields@.skip(i + 1));
        i = i + 1;
    }
    None
}

pub fn text_field(item: &JsonItem, key: &str, alt_key: &str) -> (r: Option<String>)
    ensures
        opt_view(r) == text_field_spec(*item, key@, alt_key@),
{
    match item {
        JsonItem::Object(fields) => {
            let f = match find_field(fields, key) {
                Some(v) => Some(v),
                None => find_field(fields, alt_key),
            };
            match f {
                Some(JsonField::Text(s)) => Some(s.clone()),
                _ => None,
            }
        },
        _ => None,
    }
}

/// The text a request carries under `key` (or `alt_key`), or the error
/// `missing` when it carries none.
pub fn required_text(payload: &JsonItem, key: &str, alt_key: &str, missing: &str) -> (r: Result<String, String>)
    ensures
        match text_field_spec(*payload, key@, alt_key@) {
            Some(t) => r is Ok && r->Ok_0@ == t,
            None => r is Err && r->Err_0@ == missing@,
        },
{
    match text_field(payload, key, alt_key) {
        Some(t) => Ok(t),
        None => Err(owned(missing)),
    }
}

/// What `serde_json` reads from a text as an array of JSON values, each kept
/// as a `JsonItem`; nothing when the text is not a JSON array.
pub uninterp spec fn json_array_items(content: Seq<char>) -> Option<Seq<JsonItem>>;

/// Calls `serde_json::from_str::<Vec<serde_json::Value>>` and keeps of each
/// value whether it is a string, an object (with each field's name and whether
/// its value is a string) or something else. The result is named
/// `json_array_items`; what `serde_json` accepts is left to it.
#[verifier::external_body]
fn parse_json_array(content: &str) -> (r: Option<Vec<JsonItem>>)
    ensures
        match r {
            Some(v) => json_array_items(content@) == Some(v@),
            None => json_array_items(content@) is None,
        },
{
    let values: Vec<serde_json::Value> = serde_json::from_str(content).ok()?;
    Some(values.into_iter().map(|v| match v {
        serde_json::Value::String(s) => JsonItem::Text(s),
        serde_json::Value::Object(m) => JsonItem::Object(m.into_iter().map(|(k, f)| match f {
            serde_json::Value::String(s) => (k, JsonField::Text(s)),
            _ => (k, JsonField::Other),
        }).collect()),
        _ => JsonItem::Other,
    }).collect())
}

// ---------------------------------------------------------------------------
// Word lists
// ---------------------------------------------------------------------------

/// The word an item of a word list gives: a string is the word; an object
/// gives its `word` field, or its `text` field when it has no `word` field.
pub open spec fn item_word(item: JsonItem) -> Option<Seq<char>> {
    match item {
        JsonItem::Text(s) => Some(s@),
        JsonItem::Object(_) => text_field_spec(item, "word"@, "text"@),
        JsonItem::Other => None,
    }
}

/// The words of a word list, in order; items that give none are skipped.
pub open spec fn list_words(items: Seq<JsonItem>) -> Seq<Seq<char>>
    decreases items.len(),
{
    if items.len() == 0 {
        seq![]
    } else {
        let p = list_words(items.drop_last());
        match item_word(items.last()) {
            Some(w) => p.push(w),
            None => p,
        }
    }
}

pub open spec fn views_of(v: Seq<String>) -> Seq<Seq<char>> {
    v.map_values(|s: String| s@)
}

pub fn words_of_items(items: &Vec<JsonItem>) -> (r: Vec<String>)
    ensures
        views_of(r@) == list_words(items@),
{
    let mut r: Vec<String> = Vec::new();
    let mut i: usize = 0;
    while i < items.len()
        invariant
            i <= items.len(),
            views_of(r@) == list_words(items@.take(i as int)),
        decreases items.len() - i,
    {
        assert(items@.take(i + 1).drop_last() =~= items@.take(i as int));
        assert(items@.take(i + 1).last() == items@[i as int]);
        let w = match &items[i] {
            JsonItem::Text(s) => Some(s.clone()),
            JsonItem::Object(_) => text_field(&items[i], "word", "text"),
            JsonItem::Other => None,
        };
        let ghost old_r = r@;
        match w {
            Some(s) => {
                r.push(s);
                assert(views_of(r@) =~= views_of(old_r).push(r@.last()@));
            },
            None => {},
        }
        i = i + 1;
    }
    assert(items@.take(items.len() as int) =~= items@);
    r
}

/// The words of a JSON word list (an array of strings, or of objects with a
/// `word` or `text` field), or an error when the text is not a JSON array.
pub fn parse_word_list(content: &str, not_a_list: &str) -> (r: Result<Vec<String>, String>)
    ensures
        match json_array_items(content@) {
            Some(items) => r is Ok && views_of(r->Ok_0@) == list_words(items),
            None => r is Err && r->Err_0@ == not_a_list@,
        },
{
    match parse_json_array(content) {
        Some(items) => Ok(words_of_items(&items)),
        None => Err(owned(not_a_list)),
    }
}

// ---------------------------------------------------------------------------
// Transcriptions
// ---------------------------------------------------------------------------

/// A word with its meaning and transcriptions; all empty when a word is unknown.
#[derive(Debug)]
pub struct IpaResponse {
    pub id: Option<String>,
    pub meaning: Option<String>,
    pub uk_ipa: Option<String>,
    pub us_ipa: Option<String>,
    pub word: Option<String>,
}

pub open spec fn is_empty_response(r: IpaResponse) -> bool {
    r.id is None && r.meaning is None && r.uk_ipa is None && r.us_ipa is None && r.word is None
}

fn empty_response() -> (r: IpaResponse)
    ensures
        is_empty_response(r),
{
    IpaResponse { id: None, meaning: None, uk_ipa: None, us_ipa: None, word: None }
}

/// A word is blank when nothing is left of it once trimmed.
pub open spec fn is_blank(w: Seq<char>) -> bool {
    trim_spec(w).len() == 0
}

pub fn blank(w: &str) -> (r: bool)
    ensures
        r == is_blank(w@),
{
    trim(w).as_str().is_empty()
}

/// The answers for a word list, one per word that is looked up: blank words
/// are skipped when `skip_blank` holds and answered with an empty response
/// otherwise; a word that was looked up gets what was found, or an empty
/// response when nothing was found.
pub open spec fn ipa_results_spec(words: Seq<String>, found: Seq<Option<IpaResponse>>, skip_blank: bool, r: Seq<IpaResponse>) -> bool
    decreases words.len(),
{
    if words.len() == 0 {
        r.len() == 0
    } else {
        let n = (words.len() - 1) as int;
        let w = words[n];
        if is_blank(w@) && skip_blank {
            ipa_results_spec(words.drop_last(), found.drop_last(), skip_blank, r)
        } else {
            &&& r.len() > 0
            &&& ipa_results_spec(words.drop_last(), found.drop_last(), skip_blank, r.drop_last())
            &&& if is_blank(w@) {
                is_empty_response(r.last())
            } else {
                match found[n] {
                    Some(x) => r.last() == x,
                    None => is_empty_response(r.last()),
                }
            }
        }
    }
}

pub fn ipa_results(words: &Vec<String>, found: Vec<Option<IpaResponse>>, skip_blank: bool) -> (r: Vec<IpaResponse>)
    requires
        found.len() == words.len(),
    ensures
        ipa_results_spec(words@, found@, skip_blank, r@),
{
    let mut found = found;
    let ghost all_found = found@;
    let mut r: Vec<IpaResponse> = Vec::new();
    let mut i: usize = 0;
    assert(found@ =~= all_found.skip(0));
    while i < words.len()
        invariant
            i <= words.len(),
            all_found.len() == words.len(),
            found@ == all_found.skip(i as int),
            ipa_results_spec(words@.take(i as int), all_found.take(i as int), skip_blank, r@),
        decreases words.len() - i,
    {
        let f = found.remove(0);
        assert(f == all_found[i as int]);
        assert(found@ =~= all_found.skip(i + 1));
        assert(words@.take(i + 1).drop_last() =~= words@.take(i as int));
        assert(all_found.take(i + 1).drop_last() =~= all_found.take(i as int));
        let ghost old_r = r@;
        if blank(words[i].as_str()) {
            if !skip_blank {
                r.push(empty_response());
                assert(r@.drop_last() =~= old_r);
            }
        } else {
            match f {
                Some(x) => r.push(x),
                None => r.push(empty_response()),
            }
            assert(r@.drop_last() =~= old_r);
        }
        i = i + 1;
    }
    assert(words@.take(words.len() as int) =~= words@);
    assert(all_found.take(words.len() as int) =~= all_found);
    r
}

/// The transcriptions stored for a word newly found in the dictionary.
#[derive(Debug)]
pub struct NewWordIpa {
    /// The British transcription, else the American one, else empty.
    pub ipa: String,
    pub uk: String,
    pub us: String,
}

pub open spec fn text_of(o: Option<String>) -> Seq<char> {
    match o {
        Some(s) => s@,
        None => Seq::<char>::empty(),
    }
}

/// What to store of a dictionary entry: nothing when the page gave neither a
/// transcription nor an audio address.
pub fn new_word_ipa(entry: &CambridgeEntry) -> (r: Option<NewWordIpa>)
    ensures
        (entry.uk_ipa is None && entry.us_ipa is None && entry.uk_url is None && entry.us_url is None)
            <==> r is None,
        r matches Some(n) ==> {
            &&& n.ipa@ == match entry.uk_ipa {
                Some(u) => u@,
                None => text_of(entry.us_ipa),
            }
            &&& n.uk@ == text_of(entry.uk_ipa)
            &&& n.us@ == text_of(entry.us_ipa)
        },
{
    if entry.uk_ipa.is_none() && entry.us_ipa.is_none() && entry.uk_url.is_none()
        && entry.us_url.is_none() {
        return None;
    }
    let uk = match &entry.uk_ipa {
        Some(s) => s.clone(),
        None => String::new(),
    };
    let us = match &entry.us_ipa {
        Some(s) => s.clone(),
        None => String::new(),
    };
    let ipa = match &entry.uk_ipa {
        Some(s) => s.clone(),
        None => us.clone(),
    };
    Some(NewWordIpa { ipa, uk, us })
}

/// The answer for a word newly found in the dictionary: its new id, the word
/// as asked, no meaning yet, and the transcriptions found.
pub fn new_word_response(id: String, word: String, entry: CambridgeEntry) -> (r: IpaResponse)
    ensures
        r.id == Some(id),
        r.word == Some(word),
        r.meaning is None,
        r.uk_ipa == entry.uk_ipa,
        r.us_ipa == entry.us_ipa,
{
    IpaResponse { id: Some(id), meaning: None, uk_ipa: entry.uk_ipa, us_ipa: entry.us_ipa, word: Some(word) }
}

/// The number of words of a list that are not blank.
pub open spec fn nonblank_count(words: Seq<String>) -> nat
    decreases words.len(),
{
    if words.len() == 0 {
        0
    } else if is_blank(words.last()@) {
        nonblank_count(words.drop_last())
    } else {
        nonblank_count(words.drop_last()) + 1
    }
}

/// A word list gets one answer per word when blank words are answered, and
/// one per non-blank word when they are skipped.
pub proof fn lemma_ipa_results_count(words: Seq<String>, found: Seq<Option<IpaResponse>>, skip_blank: bool, r: Seq<IpaResponse>)
    requires
        found.len() == words.len(),
        ipa_results_spec(words, found, skip_blank, r),
    ensures
        r.len() == if skip_blank { nonblank_count(words) } else { words.len() },
    decreases words.len(),
{
    if words.len() > 0 {
        let w = words.last();
        if is_blank(w@) && skip_blank {
            lemma_ipa_results_count(words.drop_last(), found.drop_last(), skip_blank, r);
        } else {
            lemma_ipa_results_count(words.drop_last(), found.drop_last(), skip_blank, r.drop_last());
        }
    }
}

/// The answers of a list without those given to its blank words.
pub open spec fn drop_blank_answers(words: Seq<String>, answers: Seq<IpaResponse>) -> Seq<IpaResponse>
    decreases words.len(),
{
    if words.len() == 0 || answers.len() == 0 {
        seq![]
    } else {
        let p = drop_blank_answers(words.drop_last(), answers.drop_last());
        if is_blank(words.last()@) {
            p
        } else {
            p.push(answers.last())
        }
    }
}

/// A word list read from a file is answered as the same list given as
/// content, less the answers to its blank words: skipping blank words only
/// leaves out their (empty) answers.
pub proof fn lemma_skipping_blanks_drops_their_answers(
    words: Seq<String>,
    found: Seq<Option<IpaResponse>>,
    skipped: Seq<IpaResponse>,
    all: Seq<IpaResponse>,
)
    requires
        found.len() == words.len(),
        ipa_results_spec(words, found, true, skipped),
        ipa_results_spec(words, found, false, all),
    ensures
        skipped == drop_blank_answers(words, all),
    decreases words.len(),
{
    if words.len() > 0 {
        let w = words.last();
        lemma_skipping_blanks_drops_their_answers(words.drop_last(), found.drop_last(), if is_blank(w@) {
            skipped
        } else {
            skipped.drop_last()
        }, all.drop_last());
        if !is_blank(w@) {
            assert(skipped.last() == all.last());
            assert(skipped =~= skipped.drop_last().push(skipped.last()));
        }
    }
}

} // verus!
