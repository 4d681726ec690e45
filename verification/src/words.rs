use vstd::prelude::*;
use vstd::utf8::is_ascii_chars;

use crate::text::{
    ascii_alphanumeric, ascii_lower_seq, chars_of, concat3, is_ascii_alphanumeric, is_ascii_upper,
    string_of,
};

verus! {

// ---------------------------------------------------------------------------
// Audio file names
// ---------------------------------------------------------------------------

/// What `str::to_lowercase` gives for a string: its Unicode lowercase mapping.
pub uninterp spec fn unicode_lowercase(s: Seq<char>) -> Seq<char>;

/// Calls `str::to_lowercase`. Its result is named `unicode_lowercase`; beyond
/// that the contract states two facts of the Unicode case tables that std's
/// lowercase mapping follows: an ASCII string is lowercased letter by letter
/// (`A`..`Z` to `a`..`z`, all else unchanged), and no character lowercases
/// to an ASCII capital letter. The mapping of other characters is left unsaid.
#[verifier::external_body]
fn to_lowercase(s: &str) -> (r: String)
    ensures
        r@ == unicode_lowercase(s@),
        is_ascii_chars(s@) ==> r@ == ascii_lower_seq(s@),
        forall|j: int| 0 <= j < r@.len() ==> !is_ascii_upper(#[trigger] r@[j]),
{
    s.to_lowercase()
}

/// A space becomes a hyphen; ASCII letters, digits and hyphens are kept;
/// every other character is dropped.
pub open spec fn filename_chars(s: Seq<char>) -> Seq<char>
    decreases s.len(),
{
    if s.len() == 0 {
        seq![]
    } else {
        let c = if s.last() == ' ' {
            '-'
        } else {
            s.last()
        };
        let rest = filename_chars(s.drop_last());
        if is_ascii_alphanumeric(c) || c == '-' {
            rest.push(c)
        } else {
            rest
        }
    }
}

/// The file name stem under which the audio of a word is stored: the word
/// lowercased, spaces turned into hyphens, and all but ASCII letters, digits
/// and hyphens removed.
pub open spec fn filename_spec(word: Seq<char>) -> Seq<char> {
    filename_chars(unicode_lowercase(word))
}

/// The file name stem of a word. For an ASCII word it is the word with its
/// letters lowercased, spaces turned into hyphens, and all but letters, digits
/// and hyphens removed.
/// The result holds only `a`..`z`, `0`..`9` and `-`, and a string that holds
/// only those characters is its own file name stem; so normalizing twice is
/// normalizing once.
pub fn normalize_word_to_filename(word: &str) -> (r: String)
    ensures
        r@ == filename_spec(word@),
        is_ascii_chars(word@) ==> r@ == filename_chars(ascii_lower_seq(word@)),
        forall|j: int| 0 <= j < r@.len() ==> is_filename_char(#[trigger] r@[j]),
        (forall|j: int| 0 <= j < word@.len() ==> is_filename_char(#[trigger] word@[j])) ==> r@
            == word@,
{
    let lowered = to_lowercase(word);
    let cs = chars_of(lowered.as_str());
    let mut out: Vec<char> = Vec::new();
    let mut i: usize = 0;
    while i < cs.len()
        invariant
            i <= cs.len(),
            cs@ == lowered@,
            out@ == filename_chars(cs@.take(i as int)),
        decreases cs.len() - i,
    {
        let c = if cs[i] == ' ' {
            '-'
        } else {
            cs[i]
        };
        assert(cs@.take(i + 1).drop_last() =~= cs@.take(i as int));
        if ascii_alphanumeric(c) || c == '-' {
            out.push(c);
        }
        i = i + 1;
    }
    assert(cs@.take(cs.len() as int) =~= cs@);
    proof {
        lemma_filename_chars_shape(cs@);
        if forall|j: int| 0 <= j < word@.len() ==> is_filename_char(#[trigger] word@[j]) {
            assert(is_ascii_chars(word@)) by {
                assert forall|j: int| 0 <= j < word@.len() implies '\0' <= #[trigger] word@[j]
                    <= '\u{7f}' by {
                    assert(is_filename_char(word@[j]));
                }
            }
            assert(ascii_lower_seq(word@) =~= word@) by {
                assert forall|j: int| 0 <= j < word@.len() implies ascii_lower_seq(word@)[j]
                    == word@[j] by {
                    assert(is_filename_char(word@[j]));
                }
            }
            lemma_filename_chars_fixed(word@);
        }
    }
    string_of(&out)
}

/// The characters a file name stem can hold: `a`..`z`, `0`..`9` and `-`.
pub open spec fn is_filename_char(c: char) -> bool {
    ('a' <= c && c <= 'z') || ('0' <= c && c <= '9') || c == '-'
}

proof fn lemma_filename_chars_shape(s: Seq<char>)
    requires
        forall|j: int| 0 <= j < s.len() ==> !is_ascii_upper(#[trigger] s[j]),
    ensures
        forall|j: int| 0 <= j < filename_chars(s).len() ==> is_filename_char(
            #[trigger] filename_chars(s)[j],
        ),
        filename_chars(s).len() <= s.len(),
    decreases s.len(),
{
    if s.len() > 0 {
        let p = s.drop_last();
        assert forall|j: int| 0 <= j < p.len() implies !is_ascii_upper(#[trigger] p[j]) by {
            assert(p[j] == s[j]);
        }
        lemma_filename_chars_shape(p);
        let rest = filename_chars(p);
        assert forall|j: int| 0 <= j < filename_chars(s).len() implies is_filename_char(
            #[trigger] filename_chars(s)[j],
        ) by {
            if j < rest.len() {
                assert(filename_chars(s)[j] == rest[j]);
            }
        }
    }
}

proof fn lemma_filename_chars_fixed(s: Seq<char>)
    requires
        forall|j: int| 0 <= j < s.len() ==> is_filename_char(#[trigger] s[j]),
    ensures
        filename_chars(s) == s,
    decreases s.len(),
{
    if s.len() > 0 {
        let p = s.drop_last();
        assert forall|j: int| 0 <= j < p.len() implies is_filename_char(#[trigger] p[j]) by {
            assert(p[j] == s[j]);
        }
        lemma_filename_chars_fixed(p);
        assert(p.push(s.last()) =~= s);
    }
}

/// A file name stem keeps, in order, exactly those characters of the text
/// that are ASCII letters, digits or hyphens once every space is made a
/// hyphen.
pub proof fn lemma_filename_chars_keep_in_order(s: Seq<char>)
    ensures
        filename_chars(s) == s.map_values(|c: char| if c == ' ' { '-' } else { c }).filter(
            |c: char| is_ascii_alphanumeric(c) || c == '-',
        ),
    decreases s.len(),
{
    reveal(Seq::filter);
    let f = |c: char| if c == ' ' { '-' } else { c };
    if s.len() > 0 {
        lemma_filename_chars_keep_in_order(s.drop_last());
        assert(s.map_values(f).drop_last() =~= s.drop_last().map_values(f));
    } else {
        assert(s.map_values(f) =~= Seq::<char>::empty());
    }
}

} // verus!
