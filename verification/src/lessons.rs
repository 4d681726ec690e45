use vstd::prelude::*;

use crate::text::{owned, str_eq};

verus! {

// ---------------------------------------------------------------------------
// Lessons
// ---------------------------------------------------------------------------

/// A lesson as listed: its id, name, place and progress.
#[derive(Debug)]
pub struct Lesson {
    pub id: String,
    pub name: String,
    pub order: i32,
    pub progress: i64,
}

/// A unit that a lesson covers.
#[derive(Debug)]
pub struct LessonUnit {
    pub unit_id: String,
    pub unit_title: String,
}

/// A word of a lesson with its practice settings.
#[derive(Debug)]
pub struct LessonWord {
    pub word_id: String,
    pub word_text: String,
    pub word_max_read: i32,
    pub word_show_ipa: bool,
    pub word_show_word: bool,
    pub word_show_ipa_and_word: bool,
    pub word_pause_time: i32,
    pub word_reads_per_round: i32,
}

/// A newly created lesson with its units and words.
#[derive(Debug)]
pub struct LessonFull {
    pub lesson: Lesson,
    pub lesson_units: Vec<LessonUnit>,
    pub lesson_words: Vec<LessonWord>,
}

/// The settings of a word given when a lesson is created.
#[derive(Debug)]
pub struct WordPayload {
    pub word_id: String,
    pub word_max_read: i32,
    pub word_show_ipa: i32,
    pub word_show_word: i32,
    pub word_show_ipa_and_word: i32,
    pub word_pause_time: i32,
    pub word_reads_per_round: i32,
}

/// The settings of a word given when a lesson is edited; absent ones are 0.
#[derive(Debug)]
pub struct WordUpdatePayload {
    pub word_id: String,
    pub word_progress: Option<i32>,
    pub word_max_read: Option<i32>,
    pub word_show_ipa: Option<i32>,
    pub word_show_word: Option<i32>,
    pub word_show_ipa_and_word: Option<i32>,
    pub word_reads_per_round: Option<i32>,
    pub word_pause_time: Option<i32>,
}

/// The progress of a word reported while a lesson is practised.
#[derive(Debug)]
pub struct WordProgressPayload {
    pub word_id: String,
    pub word_progress: Option<i32>,
    pub word_pause_time: Option<i32>,
}

/// The settings of a word given in a bulk edit of a lesson; absent ones are 0.
#[derive(Debug)]
pub struct WordBulkPayload {
    pub word_id: String,
    pub word_progress: Option<i32>,
    pub word_max_read: Option<i32>,
    pub word_show_ipa: Option<i32>,
    pub word_show_word: Option<i32>,
    pub word_show_ipa_and_word: Option<i32>,
    pub word_reads_per_round: Option<i32>,
    pub word_pause_time: Option<i32>,
}

/// A word derived from another one.
#[derive(Debug)]
pub struct ChildWord {
    pub word_id: String,
    pub word: String,
    pub ipa: Option<String>,
    pub meaning: Option<String>,
    pub parent_id: Option<String>,
}

/// A derived word with what the unit view shows of it.
#[derive(Debug)]
pub struct UnitChildWord {
    pub word_id: String,
    pub word: String,
    pub ipa: Option<String>,
    pub meaning: Option<String>,
    pub parent_id: Option<String>,
    pub word_popularity: i64,
    pub children_count: i64,
    pub custom: i64,
}

/// A lesson with its words and units.
#[derive(Debug)]
pub struct LessonDetail {
    pub id: String,
    pub name: String,
    pub order: i32,
    pub created_at: Option<String>,
    pub description: Option<String>,
    pub words: Vec<LessonWordDetail>,
    pub units: Vec<LessonUnitDetail>,
}

/// A word of a lesson, with its transcriptions and practice settings.
#[derive(Debug)]
pub struct LessonWordDetail {
    pub id: String,
    pub word: String,
    pub uk_ipa: Option<String>,
    pub us_ipa: Option<String>,
    pub meaning: Option<String>,
    pub word_max_read: i32,
    pub word_show_ipa: i32,
    pub word_show_word: i32,
    pub word_show_ipa_and_word: i32,
    pub word_progress: i32,
    pub word_reads_per_round: i32,
    pub word_pause_time: i32,
}

/// A unit of a lesson.
#[derive(Debug)]
pub struct LessonUnitDetail {
    pub id: String,
    pub name: String,
}

/// A student book with its units.
#[derive(Debug)]
pub struct StudentBookDetail {
    pub id: String,
    pub name: String,
    pub description: Option<String>,
    pub created_at: Option<String>,
    pub updated_at: Option<String>,
    pub work_book_id: Option<String>,
    pub units: Vec<UnitBasic>,
}

/// A work book with its units.
#[derive(Debug)]
pub struct WorkBookDetail {
    pub id: String,
    pub name: String,
    pub description: Option<String>,
    pub created_at: Option<String>,
    pub updated_at: Option<String>,
    pub student_book_id: Option<String>,
    pub units: Vec<UnitBasic>,
}

/// A unit of a book.
#[derive(Debug)]
pub struct UnitBasic {
    pub id: String,
    pub title: String,
    pub link: Option<String>,
}

/// A lesson as the lesson list shows it.
#[derive(Debug)]
pub struct LessonListItem {
    pub id: String,
    pub name: String,
    pub order: i32,
    pub duration: Option<i32>,
    pub progress: i32,
    pub created_at: Option<String>,
    pub updated_at: Option<String>,
    pub description: Option<String>,
    pub words_count: i64,
    pub category: Option<String>,
}

/// A page of the lesson list.
#[derive(Debug)]
pub struct LessonListResponse {
    pub data: Vec<LessonListItem>,
    pub meta: LessonListMeta,
}

/// Where a page of the lesson list stands.
#[derive(Debug)]
pub struct LessonListMeta {
    pub page: i64,
    pub limit: i64,
    pub total: i64,
    pub total_pages: i64,
}

/// The note of a unit.
#[derive(Debug)]
pub struct Note {
    pub id: String,
    pub unit_id: String,
    pub content: String,
    pub created_at: Option<String>,
    pub updated_at: Option<String>,
}

/// The new note of a unit.
#[derive(Debug)]
pub struct UpsertUnitNotePayload {
    pub unit_id: String,
    pub content: String,
}

/// The note of a unit as stored.
#[derive(Debug)]
pub struct UnitNoteRow {
    pub id: String,
    pub unit_id: String,
    pub content: String,
    pub created_at: Option<String>,
    pub updated_at: Option<String>,
}

// ---------------------------------------------------------------------------
// Creating lessons
// ---------------------------------------------------------------------------

/// The units of a new lesson: one per id, in order, with no title yet.
pub fn lesson_units_for(unit_ids: &Vec<String>) -> (r: Vec<LessonUnit>)
    ensures
        r.len() == unit_ids.len(),
        forall|i: int|
            0 <= i < r.len() ==> (#[trigger] r@[i]).unit_id == unit_ids@[i] && r@[i].unit_title@
                == Seq::<char>::empty(),
{
    let mut r: Vec<LessonUnit> = Vec::new();
    let mut i: usize = 0;
    while i < unit_ids.len()
        invariant
            i <= unit_ids.len(),
            r.len() == i,
            forall|j: int|
                0 <= j < i ==> (#[trigger] r@[j]).unit_id == unit_ids@[j] && r@[j].unit_title@
                    == Seq::<char>::empty(),
        decreases unit_ids.len() - i,
    {
        r.push(LessonUnit { unit_id: unit_ids[i].clone(), unit_title: String::new() });
        i = i + 1;
    }
    r
}

/// A newly created lesson: it has the given id and name, stands first
/// (order 0) and has no progress yet; its units are the given ones, untitled,
/// and its words are those read back from the store.
pub fn new_lesson_full(lesson_id: String, name: String, unit_ids: &Vec<String>, lesson_words: Vec<LessonWord>) -> (r: LessonFull)
    ensures
        r.lesson.id == lesson_id,
        r.lesson.name == name,
        r.lesson.order == 0,
        r.lesson.progress == 0,
        r.lesson_units.len() == unit_ids.len(),
        forall|i: int|
            0 <= i < r.lesson_units.len() ==> (#[trigger] r.lesson_units@[i]).unit_id == unit_ids@[i]
                && r.lesson_units@[i].unit_title@ == Seq::<char>::empty(),
        r.lesson_words == lesson_words,
{
    LessonFull {
        lesson: Lesson { id: lesson_id, name, order: 0, progress: 0 },
        lesson_units: lesson_units_for(unit_ids),
        lesson_words,
    }
}

// ---------------------------------------------------------------------------
// Word settings
// ---------------------------------------------------------------------------

/// The settings stored for a word of a lesson.
#[derive(Debug)]
pub struct WordValues {
    pub word_progress: i32,
    pub word_max_read: i32,
    pub word_show_ipa: i32,
    pub word_show_word: i32,
    pub word_show_ipa_and_word: i32,
    pub word_reads_per_round: i32,
    pub word_pause_time: i32,
}

/// A setting given, or 0 when it is absent.
pub open spec fn or_zero(v: Option<i32>) -> i32 {
    match v {
        Some(x) => x,
        None => 0,
    }
}

fn value_or_zero(v: Option<i32>) -> (r: i32)
    ensures
        r == or_zero(v),
{
    match v {
        Some(x) => x,
        None => 0,
    }
}

/// The settings stored for a word of an edited lesson: absent ones are 0.
pub fn word_update_values(w: &WordUpdatePayload) -> (r: WordValues)
    ensures
        r == (WordValues {
            word_progress: or_zero(w.word_progress),
            word_max_read: or_zero(w.word_max_read),
            word_show_ipa: or_zero(w.word_show_ipa),
            word_show_word: or_zero(w.word_show_word),
            word_show_ipa_and_word: or_zero(w.word_show_ipa_and_word),
            word_reads_per_round: or_zero(w.word_reads_per_round),
            word_pause_time: or_zero(w.word_pause_time),
        }),
{
    WordValues {
        word_progress: value_or_zero(w.word_progress),
        word_max_read: value_or_zero(w.word_max_read),
        word_show_ipa: value_or_zero(w.word_show_ipa),
        word_show_word: value_or_zero(w.word_show_word),
        word_show_ipa_and_word: value_or_zero(w.word_show_ipa_and_word),
        word_reads_per_round: value_or_zero(w.word_reads_per_round),
        word_pause_time: value_or_zero(w.word_pause_time),
    }
}

/// The settings stored for a word of a bulk edit: absent ones are 0.
pub fn word_bulk_values(w: &WordBulkPayload) -> (r: WordValues)
    ensures
        r == (WordValues {
            word_progress: or_zero(w.word_progress),
            word_max_read: or_zero(w.word_max_read),
            word_show_ipa: or_zero(w.word_show_ipa),
            word_show_word: or_zero(w.word_show_word),
            word_show_ipa_and_word: or_zero(w.word_show_ipa_and_word),
            word_reads_per_round: or_zero(w.word_reads_per_round),
            word_pause_time: or_zero(w.word_pause_time),
        }),
{
    WordValues {
        word_progress: value_or_zero(w.word_progress),
        word_max_read: value_or_zero(w.word_max_read),
        word_show_ipa: value_or_zero(w.word_show_ipa),
        word_show_word: value_or_zero(w.word_show_word),
        word_show_ipa_and_word: value_or_zero(w.word_show_ipa_and_word),
        word_reads_per_round: value_or_zero(w.word_reads_per_round),
        word_pause_time: value_or_zero(w.word_pause_time),
    }
}

/// The progress and pause time recorded for a practised word: absent ones are 0.
pub fn word_progress_values(w: &WordProgressPayload) -> (r: (i32, i32))
    ensures
        r == (or_zero(w.word_progress), or_zero(w.word_pause_time)),
{
    (value_or_zero(w.word_progress), value_or_zero(w.word_pause_time))
}

/// Updating a lesson's progress fails when no lesson was updated.
pub fn lesson_update_outcome(affected: usize) -> (r: Result<(), String>)
    ensures
        r is Ok <==> affected > 0,
        r matches Err(e) ==> e@ == "lesson not found or access denied"@,
{
    if affected == 0 {
        Err(owned("lesson not found or access denied"))
    } else {
        Ok(())
    }
}

// ---------------------------------------------------------------------------
// Adding words to a unit
// ---------------------------------------------------------------------------

/// Which of the given words are linked to a unit, by position: a word is
/// linked when it exists, is not in the unit yet, and no earlier occurrence
/// of the same word id has just been linked.
pub open spec fn link_plan(ids: Seq<String>, exists: Seq<bool>, in_unit: Seq<bool>, n: nat) -> Seq<int>
    decreases n,
{
    if n == 0 {
        seq![]
    } else {
        let p = link_plan(ids, exists, in_unit, (n - 1) as nat);
        let i = n - 1;
        if exists[i] && !in_unit[i] && !(exists|k: int| 0 <= k < p.len() && #[trigger] ids[p[k]]@ == ids[i]@) {
            p.push(i)
        } else {
            p
        }
    }
}

pub open spec fn positions(v: Seq<usize>) -> Seq<int> {
    v.map_values(|x: usize| x as int)
}

/// The positions of the words to link to a unit, given for each word whether
/// it exists and whether it was in the unit before any was linked.
pub fn plan_unit_word_links(word_ids: &Vec<String>, word_exists: &Vec<bool>, in_unit: &Vec<bool>) -> (r: Vec<usize>)
    requires
        word_exists.len() == word_ids.len(),
        in_unit.len() == word_ids.len(),
    ensures
        positions(r@) == link_plan(word_ids@, word_exists@, in_unit@, word_ids.len() as nat),
        forall|k: int| 0 <= k < r.len() ==> r@[k] < word_ids.len(),
{
    let mut r: Vec<usize> = Vec::new();
    let mut i: usize = 0;
    while i < word_ids.len()
        invariant
            i <= word_ids.len(),
            word_exists.len() == word_ids.len(),
            in_unit.len() == word_ids.len(),
            positions(r@) == link_plan(word_ids@, word_exists@, in_unit@, i as nat),
            forall|k: int| 0 <= k < r.len() ==> r@[k] < i,
        decreases word_ids.len() - i,
    {
        let ghost p = link_plan(word_ids@, word_exists@, in_unit@, i as nat);
        if word_exists[i] && !in_unit[i] {
            let mut dup = false;
            let mut k: usize = 0;
            while k < r.len()
                invariant
                    k <= r.len(),
                    i < word_ids.len(),
                    positions(r@) == p,
                    forall|m: int| 0 <= m < r.len() ==> r@[m] < i,
                    dup == exists|m: int| 0 <= m < k && #[trigger] word_ids@[p[m]]@ == word_ids@[i as int]@,
                decreases r.len() - k,
            {
                assert(p[k as int] == r@[k as int] as int);
                if str_eq(word_ids[r[k]].as_str(), word_ids[i].as_str()) {
                    dup = true;
                }
                k = k + 1;
            }
            if !dup {
                let ghost old_r = r@;
                r.push(i);
                assert(positions(r@) =~= positions(old_r).push(i as int));
            }
        }
        i = i + 1;
    }
    r
}

/// Linking words to a unit links each wanted word exactly once: every linked
/// position holds a word that exists and was not in the unit; positions come in
/// increasing order; no word id is linked twice; and every word that exists
/// and was not in the unit is linked, at its first occurrence.
#[verifier::spinoff_prover]
#[verifier::rlimit(80)]
pub proof fn lemma_link_plan_sound(ids: Seq<String>, exists: Seq<bool>, in_unit: Seq<bool>, n: nat)
    requires
        n <= ids.len(),
        exists.len() == ids.len(),
        in_unit.len() == ids.len(),
    ensures
        forall|k: int|
            0 <= k < link_plan(ids, exists, in_unit, n).len() ==> {
                let i = #[trigger] link_plan(ids, exists, in_unit, n)[k];
                &&& 0 <= i < n
                &&& exists[i]
                &&& !in_unit[i]
            },
        forall|k1: int, k2: int|
            0 <= k1 < k2 < link_plan(ids, exists, in_unit, n).len() ==> #[trigger] link_plan(
                ids,
                exists,
                in_unit,
                n,
            )[k1] < #[trigger] link_plan(ids, exists, in_unit, n)[k2] && ids[link_plan(
                ids,
                exists,
                in_unit,
                n,
            )[k1]]@ != ids[link_plan(ids, exists, in_unit, n)[k2]]@,
        forall|i: int|
            0 <= i < n && #[trigger] exists[i] && !in_unit[i] ==> (exists|k: int|
                0 <= k < link_plan(ids, exists, in_unit, n).len() && ids[link_plan(
                    ids,
                    exists,
                    in_unit,
                    n,
                )[k]]@ == ids[i]@),
    decreases n,
{
    if n > 0 {
        lemma_link_plan_sound(ids, exists, in_unit, (n - 1) as nat);
        let p = link_plan(ids, exists, in_unit, (n - 1) as nat);
        let q = link_plan(ids, exists, in_unit, n);
        let j = n - 1;
        if q != p {
            assert(q == p.push(j));
            assert forall|k1: int, k2: int| 0 <= k1 < k2 < q.len() implies #[trigger] q[k1] < #[trigger] q[k2]
                && ids[q[k1]]@ != ids[q[k2]]@ by {
                if k2 == p.len() {
                    assert(q[k1] == p[k1]);
                }
            }
            assert forall|i: int| 0 <= i < n && #[trigger] exists[i] && !in_unit[i] implies (exists|k: int|
                0 <= k < q.len() && ids[q[k]]@ == ids[i]@) by {
                if i < j {
                    let k = choose|k: int| 0 <= k < p.len() && ids[p[k]]@ == ids[i]@;
                    assert(q[k] == p[k]);
                } else {
                    assert(q[p.len() as int] == j);
                }
            }
        } else {
            assert forall|i: int| 0 <= i < n && #[trigger] exists[i] && !in_unit[i] implies (exists|k: int|
                0 <= k < q.len() && ids[q[k]]@ == ids[i]@) by {
                if i == j {
                    let k = choose|k: int| 0 <= k < p.len() && #[trigger] ids[p[k]]@ == ids[j]@;
                }
            }
        }
    }
}

} // verus!
