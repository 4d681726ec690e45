use vstd::prelude::*;

use crate::keys::{pair_key, pair_key_spec, same_keys, views, count_distinct, distinct_count};
use crate::text::{concat2, concat3, i64_to_decimal, owned, signed_decimal, u128_to_decimal, decimal};

verus! {

// ---------------------------------------------------------------------------
// The bundled seed data
// ---------------------------------------------------------------------------

pub struct SeedLevel {
    pub id: String,
    pub name: String,
    pub code: i64,
    pub description: Option<String>,
    pub order_index: i64,
    pub category: Option<String>,
    pub created_at: String,
    pub updated_at: String,
}

pub struct SeedLevelCode {
    pub id: i64,
    pub code: String,
}

pub struct SeedCurriculum {
    pub id: String,
    pub name: String,
    pub description: Option<String>,
    pub created_at: String,
    pub updated_at: String,
    pub level_id: Option<String>,
    pub student_book_id: Option<String>,
    pub type_: Option<String>,
    pub work_book_id: Option<String>,
    pub link_image: String,
}

pub struct SeedBook {
    pub id: String,
    pub name: String,
    pub type_: String,
    pub level_id: String,
    pub curriculum_id: String,
    pub created_at: String,
    pub updated_at: String,
}

pub struct SeedUnit {
    pub id: String,
    pub title: String,
    pub level_id: String,
    pub book_id: Option<String>,
    pub created_at: String,
    pub updated_at: String,
    pub order: i32,
    pub link: Option<String>,
}

pub struct SeedCurriculumUnit {
    pub curriculum_id: String,
    pub unit_id: String,
}

pub struct SeedLesson {
    pub id: String,
    pub name: String,
    pub progress: i64,
    pub created_at: String,
    pub updated_at: String,
    pub curriculum_id: Option<String>,
    pub order: Option<i32>,
    pub category: Option<String>,
    pub duration: Option<i32>,
    pub description: Option<String>,
}

pub struct SeedWord {
    pub id: String,
    pub word: String,
    pub meaning: String,
    pub ipa_uk: Option<String>,
    pub ipa_us: Option<String>,
    pub ipa: Option<String>,
    pub popularity: Option<i64>,
    pub parent_id: Option<String>,
    pub created_at: String,
    pub updated_at: String,
}

pub struct SeedWordUnit {
    pub word_id: String,
    pub unit_id: String,
}

pub struct SeedLessonUnit {
    pub lesson_id: String,
    pub unit_id: String,
}

pub struct SeedLessonWord {
    pub lesson_id: String,
    pub word_id: String,
    pub word_max_read: i64,
    pub word_show_ipa: i64,
    pub word_show_word: i64,
    pub word_show_ipa_and_word: i64,
    pub word_progress: i64,
}

pub struct SeedNote {
    pub id: String,
    pub unit_id: String,
    pub content: String,
    pub created_at: String,
    pub updated_at: String,
}

pub struct SeedData {
    pub curriculums: Vec<SeedCurriculum>,
    pub books: Vec<SeedBook>,
    pub units: Vec<SeedUnit>,
    pub lessons: Vec<SeedLesson>,
    pub words: Vec<SeedWord>,
    pub words_units: Vec<SeedWordUnit>,
    pub lessons_units: Vec<SeedLessonUnit>,
    pub lessons_words: Vec<SeedLessonWord>,
    pub curriculum_units: Vec<SeedCurriculumUnit>,
    pub levels_code: Vec<SeedLevelCode>,
    pub levels: Vec<SeedLevel>,
    pub notes: Vec<SeedNote>,
}

/// The keys that identify the catalogue: record ids, and `a|b` keys of links.
pub struct CatalogueKeys {
    pub curriculum_ids: Vec<String>,
    pub level_ids: Vec<String>,
    pub book_ids: Vec<String>,
    pub unit_ids: Vec<String>,
    pub word_ids: Vec<String>,
    pub lesson_ids: Vec<String>,
    pub curriculum_unit_pairs: Vec<String>,
    pub word_unit_pairs: Vec<String>,
    pub lesson_unit_pairs: Vec<String>,
    pub lesson_word_pairs: Vec<String>,
    pub note_ids: Vec<String>,
}

// ---------------------------------------------------------------------------
// Keys of the seed
// ---------------------------------------------------------------------------

/// The level ids that the seed refers to: those of books, of curriculums that
/// name one, and of units; the empty id is no level.
pub open spec fn seed_level_ids(seed: SeedData) -> Set<Seq<char>> {
    Set::new(
        |k: Seq<char>|
            k.len() > 0 && ((exists|i: int|
                0 <= i < seed.books@.len() && #[trigger] seed.books@[i].level_id@ == k) || (exists|i: int|
                0 <= i < seed.curriculums@.len() && (#[trigger] seed.curriculums@[i]).level_id is Some
                    && seed.curriculums@[i].level_id->0@ == k) || (exists|i: int|
                0 <= i < seed.units@.len() && #[trigger] seed.units@[i].level_id@ == k)),
    )
}

/// Whether the keys of the catalogue (record ids, and `a|b` keys of links;
/// see `SeedKey`) differ, as sets, from those of the seed.
pub open spec fn reseed_needed(seed: SeedData, existing: CatalogueKeys) -> bool {
    !{
        &&& views(existing.curriculum_ids@).to_set() == seed_keys(seed.curriculums@).to_set()
        &&& views(existing.level_ids@).to_set() == seed_level_ids(seed)
        &&& views(existing.book_ids@).to_set() == seed_keys(seed.books@).to_set()
        &&& views(existing.unit_ids@).to_set() == seed_keys(seed.units@).to_set()
        &&& views(existing.word_ids@).to_set() == seed_keys(seed.words@).to_set()
        &&& views(existing.lesson_ids@).to_set() == seed_keys(seed.lessons@).to_set()
        &&& views(existing.curriculum_unit_pairs@).to_set() == seed_keys(seed.curriculum_units@).to_set()
        &&& views(existing.word_unit_pairs@).to_set() == seed_keys(seed.words_units@).to_set()
        &&& views(existing.lesson_unit_pairs@).to_set() == seed_keys(seed.lessons_units@).to_set()
        &&& views(existing.lesson_word_pairs@).to_set() == seed_keys(seed.lessons_words@).to_set()
        &&& views(existing.note_ids@).to_set() == seed_keys(seed.notes@).to_set()
    }
}

/// What identifies a seed record in the catalogue: the id of a record, or
/// the `a|b` key of a link.
pub trait SeedKey {
    spec fn key_view(&self) -> Seq<char>;

    fn key(&self) -> (r: String)
        ensures
            r@ == self.key_view(),
    ;
}

/// A curriculum is identified by its id.
impl SeedKey for SeedCurriculum {
    open spec fn key_view(&self) -> Seq<char> {
        self.id@
    }

    fn key(&self) -> (r: String) {
        self.id.clone()
    }
}

/// A book is identified by its id.
impl SeedKey for SeedBook {
    open spec fn key_view(&self) -> Seq<char> {
        self.id@
    }

    fn key(&self) -> (r: String) {
        self.id.clone()
    }
}

/// A unit is identified by its id.
impl SeedKey for SeedUnit {
    open spec fn key_view(&self) -> Seq<char> {
        self.id@
    }

    fn key(&self) -> (r: String) {
        self.id.clone()
    }
}

/// A word is identified by its id.
impl SeedKey for SeedWord {
    open spec fn key_view(&self) -> Seq<char> {
        self.id@
    }

    fn key(&self) -> (r: String) {
        self.id.clone()
    }
}

/// A lesson is identified by its id.
impl SeedKey for SeedLesson {
    open spec fn key_view(&self) -> Seq<char> {
        self.id@
    }

    fn key(&self) -> (r: String) {
        self.id.clone()
    }
}

/// A note is identified by its id.
impl SeedKey for SeedNote {
    open spec fn key_view(&self) -> Seq<char> {
        self.id@
    }

    fn key(&self) -> (r: String) {
        self.id.clone()
    }
}

/// A link of a curriculum and a unit is identified by `curriculum_id|unit_id`.
impl SeedKey for SeedCurriculumUnit {
    open spec fn key_view(&self) -> Seq<char> {
        pair_key_spec(self.curriculum_id@, self.unit_id@)
    }

    fn key(&self) -> (r: String) {
        pair_key(self.curriculum_id.as_str(), self.unit_id.as_str())
    }
}

/// A link of a word and a unit is identified by `word_id|unit_id`.
impl SeedKey for SeedWordUnit {
    open spec fn key_view(&self) -> Seq<char> {
        pair_key_spec(self.word_id@, self.unit_id@)
    }

    fn key(&self) -> (r: String) {
        pair_key(self.word_id.as_str(), self.unit_id.as_str())
    }
}

/// A link of a lesson and a unit is identified by `lesson_id|unit_id`.
impl SeedKey for SeedLessonUnit {
    open spec fn key_view(&self) -> Seq<char> {
        pair_key_spec(self.lesson_id@, self.unit_id@)
    }

    fn key(&self) -> (r: String) {
        pair_key(self.lesson_id.as_str(), self.unit_id.as_str())
    }
}

/// A link of a lesson and a word is identified by `lesson_id|word_id`.
impl SeedKey for SeedLessonWord {
    open spec fn key_view(&self) -> Seq<char> {
        pair_key_spec(self.lesson_id@, self.word_id@)
    }

    fn key(&self) -> (r: String) {
        pair_key(self.lesson_id.as_str(), self.word_id.as_str())
    }
}

/// The keys of seed records, in order.
pub open spec fn seed_keys<T: SeedKey>(v: Seq<T>) -> Seq<Seq<char>> {
    v.map_values(|y: T| y.key_view())
}

fn keys_of<T: SeedKey>(v: &Vec<T>) -> (r: Vec<String>)
    ensures
        views(r@) == seed_keys(v@),
{
    let mut r: Vec<String> = Vec::new();
    let mut i: usize = 0;
    while i < v.len()
        invariant
            i <= v.len(),
            views(r@) == seed_keys(v@.take(i as int)),
        decreases v.len() - i,
    {
        let ghost old_r = r@;
        let key = v[i].key();
        r.push(key);
        assert(views(r@) =~= views(old_r).push(key@));
        assert(seed_keys(v@.take(i + 1)) =~= seed_keys(v@.take(i as int)).push(v@[i as int].key_view()));
        i = i + 1;
    }
    assert(v@.take(v.len() as int) =~= v@);
    r
}

pub open spec fn level_in_books(seed: SeedData, k: Seq<char>, n: int) -> bool {
    exists|i: int| 0 <= i < n && #[trigger] seed.books@[i].level_id@ == k
}

pub open spec fn level_in_curriculums(seed: SeedData, k: Seq<char>, n: int) -> bool {
    exists|i: int|
        0 <= i < n && (#[trigger] seed.curriculums@[i]).level_id is Some
            && seed.curriculums@[i].level_id->0@ == k
}

pub open spec fn level_in_units(seed: SeedData, k: Seq<char>, n: int) -> bool {
    exists|i: int| 0 <= i < n && #[trigger] seed.units@[i].level_id@ == k
}

/// The level ids that the seed refers to, each non-empty.
fn seed_level_id_list(seed: &SeedData) -> (r: Vec<String>)
    ensures
        views(r@).to_set() == seed_level_ids(*seed),
{
    let mut r: Vec<String> = Vec::new();
    let mut i: usize = 0;
    while i < seed.books.len()
        invariant
            i <= seed.books.len(),
            forall|k: Seq<char>| #[trigger] views(r@).contains(k) <==> (k.len() > 0 && level_in_books(*seed, k, i as int)),
        decreases seed.books.len() - i,
    {
        let l = &seed.books[i].level_id;
        let ghost old_r = r@;
        if !l.as_str().is_empty() {
            r.push(l.clone());
            assert(views(r@) =~= views(old_r).push(l@));
        } else {
            assert(r@ == old_r);
        }
        proof {
            assert forall|k: Seq<char>| #[trigger] views(r@).contains(k) <==> (k.len() > 0 && level_in_books(*seed, k, i + 1)) by {
                if views(r@).contains(k) {
                    let j = choose|j: int| 0 <= j < views(r@).len() && views(r@)[j] == k;
                    if j < old_r.len() {
                        assert(views(old_r)[j] == k);
                        assert(views(old_r).contains(k));
                    } else {
                        assert(seed.books@[i as int].level_id@ == k);
                    }
                }
                if k.len() > 0 && level_in_books(*seed, k, i + 1) {
                    let j = choose|j: int| 0 <= j < i + 1 && #[trigger] seed.books@[j].level_id@ == k;
                    if j < i {
                        assert(level_in_books(*seed, k, i as int));
                        assert(views(old_r).contains(k));
                    let t = choose|t: int| 0 <= t < views(old_r).len() && views(old_r)[t] == k;
                        assert(views(r@)[t] == k);
                    } else {
                        assert(views(r@)[old_r.len() as int] == k);
                    }
                }
            }
        }
        i = i + 1;
    }
    let mut i: usize = 0;
    while i < seed.curriculums.len()
        invariant
            i <= seed.curriculums.len(),
            forall|k: Seq<char>| #[trigger] views(r@).contains(k) <==> (k.len() > 0 && (level_in_books(*seed, k, seed.books@.len() as int) || level_in_curriculums(*seed, k, i as int))),
        decreases seed.curriculums.len() - i,
    {
        let ghost old_r = r@;
        match &seed.curriculums[i].level_id {
            Some(l) => {
                if !l.as_str().is_empty() {
                    r.push(l.clone());
                    assert(views(r@) =~= views(old_r).push(l@));
                } else {
                    assert(r@ == old_r);
                }
            },
            None => {
                assert(r@ == old_r);
            },
        }
        proof {
            assert forall|k: Seq<char>| #[trigger] views(r@).contains(k) <==> (k.len() > 0 && (level_in_books(*seed, k, seed.books@.len() as int) || level_in_curriculums(*seed, k, i + 1))) by {
                if views(r@).contains(k) {
                    let j = choose|j: int| 0 <= j < views(r@).len() && views(r@)[j] == k;
                    if j < old_r.len() {
                        assert(views(old_r)[j] == k);
                        assert(views(old_r).contains(k));
                    } else {
                        assert(seed.curriculums@[i as int].level_id->0@ == k);
                    }
                }
                if k.len() > 0 && level_in_curriculums(*seed, k, i + 1) {
                    let j = choose|j: int| 0 <= j < i + 1 && (#[trigger] seed.curriculums@[j]).level_id is Some && seed.curriculums@[j].level_id->0@ == k;
                    if j < i {
                        assert(level_in_curriculums(*seed, k, i as int));
                        assert(views(old_r).contains(k));
                    let t = choose|t: int| 0 <= t < views(old_r).len() && views(old_r)[t] == k;
                        assert(views(r@)[t] == k);
                    } else {
                        assert(views(r@)[old_r.len() as int] == k);
                    }
                }
                if k.len() > 0 && level_in_books(*seed, k, seed.books@.len() as int) {
                    assert(views(old_r).contains(k));
                    let t = choose|t: int| 0 <= t < views(old_r).len() && views(old_r)[t] == k;
                    assert(views(r@)[t] == k);
                }
            }
        }
        i = i + 1;
    }
    let mut i: usize = 0;
    while i < seed.units.len()
        invariant
            i <= seed.units.len(),
            forall|k: Seq<char>| #[trigger] views(r@).contains(k) <==> (k.len() > 0 && (level_in_books(*seed, k, seed.books@.len() as int) || level_in_curriculums(*seed, k, seed.curriculums@.len() as int) || level_in_units(*seed, k, i as int))),
        decreases seed.units.len() - i,
    {
        let l = &seed.units[i].level_id;
        let ghost old_r = r@;
        if !l.as_str().is_empty() {
            r.push(l.clone());
            assert(views(r@) =~= views(old_r).push(l@));
        } else {
            assert(r@ == old_r);
        }
        proof {
            assert forall|k: Seq<char>| #[trigger] views(r@).contains(k) <==> (k.len() > 0 && (level_in_books(*seed, k, seed.books@.len() as int) || level_in_curriculums(*seed, k, seed.curriculums@.len() as int) || level_in_units(*seed, k, i + 1))) by {
                if views(r@).contains(k) {
                    let j = choose|j: int| 0 <= j < views(r@).len() && views(r@)[j] == k;
                    if j < old_r.len() {
                        assert(views(old_r)[j] == k);
                        assert(views(old_r).contains(k));
                    } else {
                        assert(seed.units@[i as int].level_id@ == k);
                    }
                }
                if k.len() > 0 && level_in_units(*seed, k, i + 1) {
                    let j = choose|j: int| 0 <= j < i + 1 && #[trigger] seed.units@[j].level_id@ == k;
                    if j < i {
                        assert(level_in_units(*seed, k, i as int));
                        assert(views(old_r).contains(k));
                    let t = choose|t: int| 0 <= t < views(old_r).len() && views(old_r)[t] == k;
                        assert(views(r@)[t] == k);
                    } else {
                        assert(views(r@)[old_r.len() as int] == k);
                    }
                }
                if k.len() > 0 && (level_in_books(*seed, k, seed.books@.len() as int) || level_in_curriculums(*seed, k, seed.curriculums@.len() as int)) {
                    assert(views(old_r).contains(k));
                    let t = choose|t: int| 0 <= t < views(old_r).len() && views(old_r)[t] == k;
                    assert(views(r@)[t] == k);
                }
            }
        }
        i = i + 1;
    }
    proof {
        assert(views(r@).to_set() =~= seed_level_ids(*seed));
    }
    r
}

/// Whether the catalogue must be cleared and seeded again: it must when any of
/// its sets of keys (record ids, and `a|b` keys of links) differs from the
/// seed's.
pub fn needs_reseed(seed: &SeedData, existing: &CatalogueKeys) -> (r: bool)
    ensures
        r == reseed_needed(*seed, *existing),
{
    let a = same_keys(&existing.curriculum_ids, &keys_of(&seed.curriculums));
    let b = same_keys(&existing.level_ids, &seed_level_id_list(seed));
    let c = same_keys(&existing.book_ids, &keys_of(&seed.books));
    let d = same_keys(&existing.unit_ids, &keys_of(&seed.units));
    let e = same_keys(&existing.word_ids, &keys_of(&seed.words));
    let f = same_keys(&existing.lesson_ids, &keys_of(&seed.lessons));
    let g = same_keys(&existing.curriculum_unit_pairs, &keys_of(&seed.curriculum_units));
    let h = same_keys(&existing.word_unit_pairs, &keys_of(&seed.words_units));
    let i = same_keys(&existing.lesson_unit_pairs, &keys_of(&seed.lessons_units));
    let j = same_keys(&existing.lesson_word_pairs, &keys_of(&seed.lessons_words));
    let k = same_keys(&existing.note_ids, &keys_of(&seed.notes));
    !(a && b && c && d && e && f && g && h && i && j && k)
}

// ---------------------------------------------------------------------------
// Checking the seeded counts
// ---------------------------------------------------------------------------

/// How many rows each table should hold once seeded. Units are counted by
/// distinct id; every other table by its number of seed records.
pub struct ExpectedCounts {
    pub curriculums: usize,
    pub books: usize,
    pub units: usize,
    pub lessons: usize,
    pub words: usize,
    pub levels_code: usize,
    pub levels: usize,
    pub curriculum_units: usize,
    pub words_units: usize,
    pub lessons_units: usize,
    pub lessons_words: usize,
    pub notes: usize,
}

/// The number of distinct unit ids in the seed.
pub open spec fn seed_unit_count(seed: SeedData) -> nat {
    seed_keys(seed.units@).to_set().len()
}

pub fn expected_counts(seed: &SeedData) -> (r: ExpectedCounts)
    ensures
        r.curriculums == seed.curriculums.len(),
        r.books == seed.books.len(),
        r.units == seed_unit_count(*seed),
        r.units == distinct_count(seed_keys(seed.units@)),
        r.lessons == seed.lessons.len(),
        r.words == seed.words.len(),
        r.levels_code == seed.levels_code.len(),
        r.levels == seed.levels.len(),
        r.curriculum_units == seed.curriculum_units.len(),
        r.words_units == seed.words_units.len(),
        r.lessons_units == seed.lessons_units.len(),
        r.lessons_words == seed.lessons_words.len(),
        r.notes == seed.notes.len(),
{
    let ids = keys_of(&seed.units);
    ExpectedCounts {
        curriculums: seed.curriculums.len(),
        books: seed.books.len(),
        units: count_distinct(&ids),
        lessons: seed.lessons.len(),
        words: seed.words.len(),
        levels_code: seed.levels_code.len(),
        levels: seed.levels.len(),
        curriculum_units: seed.curriculum_units.len(),
        words_units: seed.words_units.len(),
        lessons_units: seed.lessons_units.len(),
        lessons_words: seed.lessons_words.len(),
        notes: seed.notes.len(),
    }
}

/// The number of rows found in a table after seeding, beside the number expected.
pub struct TableCount {
    pub table: String,
    pub actual: i64,
    pub expected: usize,
}

/// `name: actual A, expected E`.
pub open spec fn count_text(c: TableCount) -> Seq<char> {
    c.table@ + ": actual "@ + signed_decimal(c.actual as int) + ", expected "@ + decimal(
        c.expected as nat,
    )
}

/// The texts of the tables whose counts differ, in order.
pub open spec fn mismatch_texts(cs: Seq<TableCount>) -> Seq<Seq<char>>
    decreases cs.len(),
{
    if cs.len() == 0 {
        seq![]
    } else {
        let p = mismatch_texts(cs.drop_last());
        if cs.last().actual as int != cs.last().expected as int {
            p.push(count_text(cs.last()))
        } else {
            p
        }
    }
}

/// The items joined by a separator.
pub open spec fn join(items: Seq<Seq<char>>, sep: Seq<char>) -> Seq<char>
    decreases items.len(),
{
    if items.len() == 0 {
        seq![]
    } else if items.len() == 1 {
        items[0]
    } else {
        join(items.drop_last(), sep) + sep + items.last()
    }
}

fn count_line(c: &TableCount) -> (r: String)
    ensures
        r@ == count_text(*c),
{
    let a = i64_to_decimal(c.actual);
    let e = u128_to_decimal(c.expected as u128);
    let mut r = concat3(c.table.as_str(), ": actual ", a.as_str());
    r.append(", expected ");
    r.append(e.as_str());
    r
}

/// Succeeds when every table holds as many rows as expected; otherwise fails
/// with `seed verification failed: ` and, joined by `; `, a line
/// `name: actual A, expected E` for each table that does not.
pub fn check_seed_counts(counts: &Vec<TableCount>) -> (r: Result<(), String>)
    ensures
        r is Ok <==> mismatch_texts(counts@).len() == 0,
        r matches Err(e) ==> e@ == "seed verification failed: "@ + join(mismatch_texts(counts@), "; "@),
{
    let mut msg = String::new();
    let mut n: usize = 0;
    let mut i: usize = 0;
    while i < counts.len()
        invariant
            i <= counts.len(),
            n == mismatch_texts(counts@.take(i as int)).len(),
            n <= i,
            msg@ == join(mismatch_texts(counts@.take(i as int)), "; "@),
        decreases counts.len() - i,
    {
        let c = &counts[i];
        let ghost p = mismatch_texts(counts@.take(i as int));
        assert(counts@.take(i + 1).drop_last() =~= counts@.take(i as int));
        assert(counts@.take(i + 1).last() == *c);
        if (c.actual as i128) != (c.expected as i128) {
            let line = count_line(c);
            proof {
                assert(p.push(line@).drop_last() =~= p);
            }
            if n == 0 {
                msg = line;
                assert(msg@ == join(p.push(line@), "; "@));
            } else {
                msg.append("; ");
                msg.append(line.as_str());
                assert(msg@ == join(p.push(line@), "; "@));
            }
            n = n + 1;
        }
        i = i + 1;
    }
    assert(counts@.take(counts.len() as int) =~= counts@);
    if n == 0 {
        Ok(())
    } else {
        Err(concat2("seed verification failed: ", msg.as_str()))
    }
}

// ---------------------------------------------------------------------------
// Seed rows
// ---------------------------------------------------------------------------

/// The level ids to fill in for curriculums of an existing catalogue: one
/// `(curriculum id, level id)` for each seed curriculum that names a
/// non-empty level, in order.
pub open spec fn level_updates_spec(cs: Seq<SeedCurriculum>) -> Seq<(Seq<char>, Seq<char>)>
    decreases cs.len(),
{
    if cs.len() == 0 {
        seq![]
    } else {
        let p = level_updates_spec(cs.drop_last());
        match cs.last().level_id {
            Some(l) => if l@.len() > 0 {
                p.push((cs.last().id@, l@))
            } else {
                p
            },
            None => p,
        }
    }
}

pub open spec fn pair_views(v: Seq<(String, String)>) -> Seq<(Seq<char>, Seq<char>)> {
    v.map_values(|p: (String, String)| (p.0@, p.1@))
}

pub fn curriculum_level_updates(curriculums: &Vec<SeedCurriculum>) -> (r: Vec<(String, String)>)
    ensures
        pair_views(r@) == level_updates_spec(curriculums@),
{
    let mut r: Vec<(String, String)> = Vec::new();
    let mut i: usize = 0;
    while i < curriculums.len()
        invariant
            i <= curriculums.len(),
            pair_views(r@) == level_updates_spec(curriculums@.take(i as int)),
        decreases curriculums.len() - i,
    {
        let c = &curriculums[i];
        assert(curriculums@.take(i + 1).drop_last() =~= curriculums@.take(i as int));
        let ghost old_r = r@;
        match &c.level_id {
            Some(l) => {
                if !l.as_str().is_empty() {
                    r.push((c.id.clone(), l.clone()));
                    assert(pair_views(r@) =~= pair_views(old_r).push((c.id@, l@)));
                }
            },
            None => {},
        }
        proof {
            assert(curriculums@.take(i + 1).last() == *c);
        }
        i = i + 1;
    }
    assert(curriculums@.take(curriculums.len() as int) =~= curriculums@);
    r
}

/// The text of an optional field, empty when it is absent.
pub open spec fn text_or_empty(o: Option<String>) -> Seq<char> {
    match o {
        Some(s) => s@,
        None => Seq::<char>::empty(),
    }
}

/// The phonetic fields stored for a seed word: the general transcription (empty
/// when absent), and the British and American ones, each falling back to the
/// general one when absent.
pub struct WordIpa {
    pub ipa: String,
    pub uk: String,
    pub us: String,
}

pub fn seed_word_ipa(word: &SeedWord) -> (r: WordIpa)
    ensures
        r.ipa@ == text_or_empty(word.ipa),
        r.uk@ == match word.ipa_uk {
            Some(s) => s@,
            None => text_or_empty(word.ipa),
        },
        r.us@ == match word.ipa_us {
            Some(s) => s@,
            None => text_or_empty(word.ipa),
        },
{
    let fallback = match &word.ipa {
        Some(s) => s.clone(),
        None => String::new(),
    };
    let uk = match &word.ipa_uk {
        Some(s) => s.clone(),
        None => fallback.clone(),
    };
    let us = match &word.ipa_us {
        Some(s) => s.clone(),
        None => fallback.clone(),
    };
    WordIpa { ipa: fallback, uk, us }
}

/// A catalogue that holds exactly the keys of the seed, in any order and with
/// any repetition, is not seeded again: seeding a second time keeps the data.
pub proof fn lemma_seeded_catalogue_kept(seed: SeedData, existing: CatalogueKeys)
    requires
        views(existing.curriculum_ids@).to_set() == seed_keys(seed.curriculums@).to_set(),
        views(existing.level_ids@).to_set() == seed_level_ids(seed),
        views(existing.book_ids@).to_set() == seed_keys(seed.books@).to_set(),
        views(existing.unit_ids@).to_set() == seed_keys(seed.units@).to_set(),
        views(existing.word_ids@).to_set() == seed_keys(seed.words@).to_set(),
        views(existing.lesson_ids@).to_set() == seed_keys(seed.lessons@).to_set(),
        views(existing.curriculum_unit_pairs@).to_set() == seed_keys(seed.curriculum_units@).to_set(),
        views(existing.word_unit_pairs@).to_set() == seed_keys(seed.words_units@).to_set(),
        views(existing.lesson_unit_pairs@).to_set() == seed_keys(seed.lessons_units@).to_set(),
        views(existing.lesson_word_pairs@).to_set() == seed_keys(seed.lessons_words@).to_set(),
        views(existing.note_ids@).to_set() == seed_keys(seed.notes@).to_set(),
    ensures
        !reseed_needed(seed, existing),
{
}

/// The keys of the seed's records are the texts the catalogue is read back
/// with: a record's id, and for a link its two ids joined by `|` in the order
/// the link table names them (`curriculum_id|unit_id`, `word_id|unit_id`,
/// `lesson_id|unit_id`, `lesson_id|word_id`).
pub proof fn lemma_seed_keys_spelled_out(seed: SeedData)
    ensures
        seed_keys(seed.curriculums@) == seed.curriculums@.map_values(|c: SeedCurriculum| c.id@),
        seed_keys(seed.books@) == seed.books@.map_values(|b: SeedBook| b.id@),
        seed_keys(seed.units@) == seed.units@.map_values(|u: SeedUnit| u.id@),
        seed_keys(seed.words@) == seed.words@.map_values(|w: SeedWord| w.id@),
        seed_keys(seed.lessons@) == seed.lessons@.map_values(|l: SeedLesson| l.id@),
        seed_keys(seed.notes@) == seed.notes@.map_values(|n: SeedNote| n.id@),
        seed_keys(seed.curriculum_units@) == seed.curriculum_units@.map_values(|p: SeedCurriculumUnit| p.curriculum_id@ + seq!['|'] + p.unit_id@),
        seed_keys(seed.words_units@) == seed.words_units@.map_values(|p: SeedWordUnit| p.word_id@ + seq!['|'] + p.unit_id@),
        seed_keys(seed.lessons_units@) == seed.lessons_units@.map_values(|p: SeedLessonUnit| p.lesson_id@ + seq!['|'] + p.unit_id@),
        seed_keys(seed.lessons_words@) == seed.lessons_words@.map_values(|p: SeedLessonWord| p.lesson_id@ + seq!['|'] + p.word_id@),
{
    assert(seed_keys(seed.curriculums@) =~= seed.curriculums@.map_values(|c: SeedCurriculum| c.id@));
    assert(seed_keys(seed.books@) =~= seed.books@.map_values(|b: SeedBook| b.id@));
    assert(seed_keys(seed.units@) =~= seed.units@.map_values(|u: SeedUnit| u.id@));
    assert(seed_keys(seed.words@) =~= seed.words@.map_values(|w: SeedWord| w.id@));
    assert(seed_keys(seed.lessons@) =~= seed.lessons@.map_values(|l: SeedLesson| l.id@));
    assert(seed_keys(seed.notes@) =~= seed.notes@.map_values(|n: SeedNote| n.id@));
    assert(seed_keys(seed.curriculum_units@) =~= seed.curriculum_units@.map_values(|p: SeedCurriculumUnit| p.curriculum_id@ + seq!['|'] + p.unit_id@));
    assert(seed_keys(seed.words_units@) =~= seed.words_units@.map_values(|p: SeedWordUnit| p.word_id@ + seq!['|'] + p.unit_id@));
    assert(seed_keys(seed.lessons_units@) =~= seed.lessons_units@.map_values(|p: SeedLessonUnit| p.lesson_id@ + seq!['|'] + p.unit_id@));
    assert(seed_keys(seed.lessons_words@) =~= seed.lessons_words@.map_values(|p: SeedLessonWord| p.lesson_id@ + seq!['|'] + p.word_id@));
}

/// A catalogue whose record ids are the seed's, whose level ids are those the
/// seed refers to, and whose links read back as the seed's `a|b` keys, in any
/// order and with any repetition, is not cleared and seeded again.
pub proof fn lemma_catalogue_with_seed_keys_kept(seed: SeedData, existing: CatalogueKeys)
    requires
        views(existing.curriculum_ids@).to_set() == seed.curriculums@.map_values(|c: SeedCurriculum| c.id@).to_set(),
        views(existing.level_ids@).to_set() == seed_level_ids(seed),
        views(existing.book_ids@).to_set() == seed.books@.map_values(|b: SeedBook| b.id@).to_set(),
        views(existing.unit_ids@).to_set() == seed.units@.map_values(|u: SeedUnit| u.id@).to_set(),
        views(existing.word_ids@).to_set() == seed.words@.map_values(|w: SeedWord| w.id@).to_set(),
        views(existing.lesson_ids@).to_set() == seed.lessons@.map_values(|l: SeedLesson| l.id@).to_set(),
        views(existing.note_ids@).to_set() == seed.notes@.map_values(|n: SeedNote| n.id@).to_set(),
        views(existing.curriculum_unit_pairs@).to_set() == seed.curriculum_units@.map_values(|p: SeedCurriculumUnit| p.curriculum_id@ + seq!['|'] + p.unit_id@).to_set(),
        views(existing.word_unit_pairs@).to_set() == seed.words_units@.map_values(|p: SeedWordUnit| p.word_id@ + seq!['|'] + p.unit_id@).to_set(),
        views(existing.lesson_unit_pairs@).to_set() == seed.lessons_units@.map_values(|p: SeedLessonUnit| p.lesson_id@ + seq!['|'] + p.unit_id@).to_set(),
        views(existing.lesson_word_pairs@).to_set() == seed.lessons_words@.map_values(|p: SeedLessonWord| p.lesson_id@ + seq!['|'] + p.word_id@).to_set(),
    ensures
        !reseed_needed(seed, existing),
{
    lemma_seed_keys_spelled_out(seed);
    lemma_seeded_catalogue_kept(seed, existing);
}

/// The level ids filled in for an existing catalogue are, in the seed's
/// order, one `(curriculum id, level id)` for each seed curriculum that gives
/// a non-empty level id, and none for the others.
pub proof fn lemma_level_updates_follow_seed(cs: Seq<SeedCurriculum>)
    ensures
        level_updates_spec(cs) == cs.filter(
            |c: SeedCurriculum| c.level_id matches Some(l) && l@.len() > 0,
        ).map_values(|c: SeedCurriculum| (c.id@, c.level_id->0@)),
    decreases cs.len(),
{
    reveal(Seq::filter);
    let pred = |c: SeedCurriculum| c.level_id matches Some(l) && l@.len() > 0;
    let g = |c: SeedCurriculum| (c.id@, c.level_id->0@);
    if cs.len() > 0 {
        let p = cs.drop_last();
        lemma_level_updates_follow_seed(p);
        assert(cs.filter(pred).map_values(g) =~= if pred(cs.last()) {
            p.filter(pred).map_values(g).push(g(cs.last()))
        } else {
            p.filter(pred).map_values(g)
        });
    } else {
        assert(cs.filter(pred).map_values(g) =~= Seq::<(Seq<char>, Seq<char>)>::empty());
    }
}

/// Seeding is confirmed exactly when every table holds as many rows as
/// expected.
pub proof fn lemma_counts_confirm_iff_all_equal(cs: Seq<TableCount>)
    ensures
        mismatch_texts(cs).len() == 0 <==> forall|k: int| 0 <= k < cs.len() ==> #[trigger] cs[k].actual as int == cs[k].expected as int,
    decreases cs.len(),
{
    if cs.len() > 0 {
        let p = cs.drop_last();
        lemma_counts_confirm_iff_all_equal(p);
        if forall|k: int| 0 <= k < cs.len() ==> #[trigger] cs[k].actual as int == cs[k].expected as int {
            assert forall|k: int| 0 <= k < p.len() implies #[trigger] p[k].actual as int == p[k].expected as int by {
                assert(p[k] == cs[k]);
            }
            assert(cs[cs.len() - 1].actual as int == cs[cs.len() - 1].expected as int);
        }
        if mismatch_texts(cs).len() == 0 {
            assert forall|k: int| 0 <= k < cs.len() implies #[trigger] cs[k].actual as int == cs[k].expected as int by {
                if k < p.len() {
                    assert(p[k] == cs[k]);
                }
            }
        }
    }
}

} // verus!
