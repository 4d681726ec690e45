use vstd::prelude::*;

use crate::keys::views;
use crate::schema::{
    has_column, has_column_after_plan, has_column_spec, lemma_schema_plan_twice, schema_plan,
    schema_plan_spec, step_views, SchemaStep, TableColumns, WORDS_IPA_BACKFILL,
};
use crate::seed::{
    check_seed_counts, curriculum_level_updates, expected_counts, join, level_updates_spec,
    mismatch_texts, needs_reseed, pair_views, reseed_needed, seed_unit_count, lemma_seed_keys_spelled_out,
    CatalogueKeys, SeedData, SeedUnit, TableCount,
};
use crate::text::owned;

verus! {

/// Where the initialization of the store stands: which piece of outside work
/// it waits for.
pub enum InitStage {
    /// Nothing has been done yet.
    Start,
    /// The store is being opened and its missing tables created.
    CreatingTables,
    /// The schema steps are being run.
    Migrating,
    /// The seed data is being loaded.
    LoadingSeed,
    /// The store is being inspected; the seed waits here.
    Inspecting(SeedData),
    /// The level ids of existing curriculums are being filled in.
    Backfilling,
    /// The keys of the catalogue are being read; the seed waits here.
    ReadingKeys(SeedData),
    /// The seed is being written; the counts it should give wait here.
    Writing(Vec<TableCount>),
    /// The rows of the tables are being counted.
    Counting,
    /// The initialization is over.
    Finished,
}

/// What the outside work reported.
pub enum InitEvent {
    /// The initialization is asked for.
    Begin,
    /// The store is open, every table exists, and its tables have these columns.
    TablesCreated(Vec<TableColumns>),
    /// Every schema step ran.
    SchemaApplied,
    /// The seed data was loaded.
    SeedLoaded(SeedData),
    /// Whether any table holds a row, and the columns of the tables.
    DataInspected { has_rows: bool, columns: Vec<TableColumns> },
    /// The level ids were filled in.
    LevelsBackfilled,
    /// The keys found in the catalogue.
    KeysRead(CatalogueKeys),
    /// The seed was written.
    SeedWritten,
    /// The row counts, each beside the count expected.
    RowsCounted(Vec<TableCount>),
    /// The outside work failed with this message.
    Failed(String),
}

/// The outside work to do next.
pub enum InitAction {
    /// Open the store and create the tables it lacks; report their columns.
    CreateTables,
    /// Run these statements in order, stopping with its message at the first
    /// that fails.
    ApplySchema(Vec<SchemaStep>),
    /// Load the seed data.
    LoadSeed,
    /// Tell whether any table holds a row, and read the tables' columns.
    InspectData,
    /// In one transaction, give each curriculum its level id, as
    /// `(curriculum id, level id)`, where it has none yet.
    BackfillLevels(Vec<(String, String)>),
    /// Read the keys of the catalogue, the level ids from these tables.
    ReadKeys { level_tables: Vec<String> },
    /// Write the seed in one transaction, after clearing the catalogue when
    /// `clear` holds.
    WriteSeed { seed: SeedData, clear: bool },
    /// Count the rows of these tables, filling in `actual`.
    CountRows(Vec<TableCount>),
    /// Stop with this outcome.
    Finish(Result<(), String>),
}

/// Whether an event answers the work that the stage waits for; a failure
/// answers any.
pub open spec fn event_fits(stage: InitStage, event: InitEvent) -> bool {
    match event {
        InitEvent::Failed(_) => true,
        InitEvent::Begin => stage is Start,
        InitEvent::TablesCreated(_) => stage is CreatingTables,
        InitEvent::SchemaApplied => stage is Migrating,
        InitEvent::SeedLoaded(_) => stage is LoadingSeed,
        InitEvent::DataInspected { .. } => stage is Inspecting,
        InitEvent::LevelsBackfilled => stage is Backfilling,
        InitEvent::KeysRead(_) => stage is ReadingKeys,
        InitEvent::SeedWritten => stage is Writing,
        InitEvent::RowsCounted(_) => stage is Counting,
    }
}

/// The tables whose level ids count as levels of the catalogue: those of
/// books, curriculums and units that have a `level_id` column, in that order.
pub open spec fn level_tables_spec(columns: Seq<TableColumns>) -> Seq<Seq<char>> {
    (if has_column_spec(columns, "books"@, "level_id"@) {
        seq!["books"@]
    } else {
        Seq::<Seq<char>>::empty()
    }) + (if has_column_spec(columns, "curriculums"@, "level_id"@) {
        seq!["curriculums"@]
    } else {
        Seq::<Seq<char>>::empty()
    }) + (if has_column_spec(columns, "units"@, "level_id"@) {
        seq!["units"@]
    } else {
        Seq::<Seq<char>>::empty()
    })
}

/// The tables counted after seeding, in order, each with the number of rows
/// it should hold: units by distinct id, every other table by its number of
/// seed records.
pub open spec fn expected_rows(seed: SeedData) -> Seq<(Seq<char>, int)> {
    seq![
        ("curriculums"@, seed.curriculums@.len() as int),
        ("books"@, seed.books@.len() as int),
        ("units"@, seed_unit_count(seed) as int),
        ("lessons"@, seed.lessons@.len() as int),
        ("words"@, seed.words@.len() as int),
        ("levels_code"@, seed.levels_code@.len() as int),
        ("levels"@, seed.levels@.len() as int),
        ("curriculum_units"@, seed.curriculum_units@.len() as int),
        ("words_units"@, seed.words_units@.len() as int),
        ("lessons_units"@, seed.lessons_units@.len() as int),
        ("lessons_words"@, seed.lessons_words@.len() as int),
        ("notes"@, seed.notes@.len() as int),
    ]
}

/// Whether `counts` lists the tables of `expected`, in order, with their
/// expected counts and nothing counted yet.
pub open spec fn counts_to_fill(counts: Seq<TableCount>, expected: Seq<(Seq<char>, int)>) -> bool {
    &&& counts.len() == expected.len()
    &&& forall|k: int|
        0 <= k < counts.len() ==> {
            &&& (#[trigger] counts[k]).table@ == expected[k].0
            &&& counts[k].expected == expected[k].1
            &&& counts[k].actual == 0
        }
}

/// One step of the initialization: from the stage and what the outside work
/// reported, the next stage and the work to do.
pub open spec fn init_transition(stage: InitStage, event: InitEvent, next: InitStage, action: InitAction) -> bool {
    match event {
        InitEvent::Failed(msg) => next is Finished && action == InitAction::Finish(Err(msg)),
        InitEvent::Begin => next is CreatingTables && action is CreateTables,
        InitEvent::TablesCreated(columns) => {
            &&& next is Migrating
            &&& action matches InitAction::ApplySchema(steps)
            &&& step_views(steps@) == schema_plan_spec(columns@)
        },
        InitEvent::SchemaApplied => next is LoadingSeed && action is LoadSeed,
        InitEvent::SeedLoaded(seed) => next == InitStage::Inspecting(seed) && action is InspectData,
        InitEvent::DataInspected { has_rows, columns } => match stage {
            InitStage::Inspecting(seed) => if !has_rows {
                &&& next == InitStage::ReadingKeys(seed)
                &&& action matches InitAction::ReadKeys { level_tables }
                &&& views(level_tables@) == level_tables_spec(columns@)
            } else if has_column_spec(columns@, "curriculums"@, "level_id"@) {
                &&& next is Backfilling
                &&& action matches InitAction::BackfillLevels(updates)
                &&& pair_views(updates@) == level_updates_spec(seed.curriculums@)
            } else {
                next is Finished && action == InitAction::Finish(Ok(()))
            },
            _ => false,
        },
        InitEvent::LevelsBackfilled => next is Finished && action == InitAction::Finish(Ok(())),
        InitEvent::KeysRead(keys) => match stage {
            InitStage::ReadingKeys(seed) => {
                &&& next matches InitStage::Writing(counts)
                &&& counts_to_fill(counts@, expected_rows(seed))
                &&& action == InitAction::WriteSeed { seed, clear: reseed_needed(seed, keys) }
            },
            _ => false,
        },
        InitEvent::SeedWritten => match stage {
            InitStage::Writing(counts) => next is Counting && action == InitAction::CountRows(counts),
            _ => false,
        },
        InitEvent::RowsCounted(counts) => {
            &&& next is Finished
            &&& action matches InitAction::Finish(outcome)
            &&& (outcome is Ok <==> mismatch_texts(counts@).len() == 0)
            &&& (outcome matches Err(e) ==> e@ == "seed verification failed: "@ + join(
                mismatch_texts(counts@),
                "; "@,
            ))
        },
    }
}

/// Tells whether an event answers the work that the stage waits for.
pub fn event_answers(stage: &InitStage, event: &InitEvent) -> (r: bool)
    ensures
        r == event_fits(*stage, *event),
{
    match event {
        InitEvent::Failed(_) => true,
        InitEvent::Begin => matches!(stage, InitStage::Start),
        InitEvent::TablesCreated(_) => matches!(stage, InitStage::CreatingTables),
        InitEvent::SchemaApplied => matches!(stage, InitStage::Migrating),
        InitEvent::SeedLoaded(_) => matches!(stage, InitStage::LoadingSeed),
        InitEvent::DataInspected { .. } => matches!(stage, InitStage::Inspecting(_)),
        InitEvent::LevelsBackfilled => matches!(stage, InitStage::Backfilling),
        InitEvent::KeysRead(_) => matches!(stage, InitStage::ReadingKeys(_)),
        InitEvent::SeedWritten => matches!(stage, InitStage::Writing(_)),
        InitEvent::RowsCounted(_) => matches!(stage, InitStage::Counting),
    }
}

fn level_tables(columns: &Vec<TableColumns>) -> (r: Vec<String>)
    ensures
        views(r@) == level_tables_spec(columns@),
{
    let mut r: Vec<String> = Vec::new();
    if has_column(columns, "books", "level_id") {
        r.push(owned("books"));
    }
    if has_column(columns, "curriculums", "level_id") {
        r.push(owned("curriculums"));
    }
    if has_column(columns, "units", "level_id") {
        r.push(owned("units"));
    }
    assert(views(r@) =~= level_tables_spec(columns@));
    r
}

fn count_row(table: &'static str, expected: usize) -> (r: TableCount)
    ensures
        r.table@ == table@,
        r.expected == expected,
        r.actual == 0,
{
    TableCount { table: owned(table), actual: 0, expected }
}

fn expected_row_list(seed: &SeedData) -> (r: Vec<TableCount>)
    ensures
        counts_to_fill(r@, expected_rows(*seed)),
{
    let e = expected_counts(seed);
    let r = vec![
        count_row("curriculums", e.curriculums),
        count_row("books", e.books),
        count_row("units", e.units),
        count_row("lessons", e.lessons),
        count_row("words", e.words),
        count_row("levels_code", e.levels_code),
        count_row("levels", e.levels),
        count_row("curriculum_units", e.curriculum_units),
        count_row("words_units", e.words_units),
        count_row("lessons_units", e.lessons_units),
        count_row("lessons_words", e.lessons_words),
        count_row("notes", e.notes),
    ];
    assert(r@.len() == 12);
    r
}

/// One step of setting up the store: given the stage reached and what the
/// outside work reported, the next stage and the work to do. The store is
/// opened and its tables created, the schema brought up to date, and the seed
/// loaded; a store that holds data then only has its curriculums' level ids
/// filled in, while an empty one is seeded (cleared first when its keys
/// differ from the seed's) and its row counts checked. Any failure ends the
/// setup with its message.
pub fn initialize_database(stage: InitStage, event: InitEvent) -> (r: (InitStage, InitAction))
    requires
        event_fits(stage, event),
    ensures
        init_transition(stage, event, r.0, r.1),
{
    match event {
        InitEvent::Failed(msg) => (InitStage::Finished, InitAction::Finish(Err(msg))),
        InitEvent::Begin => (InitStage::CreatingTables, InitAction::CreateTables),
        InitEvent::TablesCreated(columns) => (InitStage::Migrating, InitAction::ApplySchema(schema_plan(&columns))),
        InitEvent::SchemaApplied => (InitStage::LoadingSeed, InitAction::LoadSeed),
        InitEvent::SeedLoaded(seed) => (InitStage::Inspecting(seed), InitAction::InspectData),
        InitEvent::DataInspected { has_rows, columns } => match stage {
            InitStage::Inspecting(seed) => {
                if !has_rows {
                    let level_tables = level_tables(&columns);
                    (InitStage::ReadingKeys(seed), InitAction::ReadKeys { level_tables })
                } else if has_column(&columns, "curriculums", "level_id") {
                    (InitStage::Backfilling, InitAction::BackfillLevels(curriculum_level_updates(&seed.curriculums)))
                } else {
                    (InitStage::Finished, InitAction::Finish(Ok(())))
                }
            },
            _ => vstd::pervasive::unreached(),
        },
        InitEvent::LevelsBackfilled => (InitStage::Finished, InitAction::Finish(Ok(()))),
        InitEvent::KeysRead(keys) => match stage {
            InitStage::ReadingKeys(seed) => {
                let clear = needs_reseed(&seed, &keys);
                let counts = expected_row_list(&seed);
                (InitStage::Writing(counts), InitAction::WriteSeed { seed, clear })
            },
            _ => vstd::pervasive::unreached(),
        },
        InitEvent::SeedWritten => match stage {
            InitStage::Writing(counts) => (InitStage::Counting, InitAction::CountRows(counts)),
            _ => vstd::pervasive::unreached(),
        },
        InitEvent::RowsCounted(counts) => (InitStage::Finished, InitAction::Finish(check_seed_counts(&counts))),
    }
}

/// How many steps at most remain before the setup is over.
pub open spec fn steps_left(stage: InitStage) -> nat {
    match stage {
        InitStage::Start => 9,
        InitStage::CreatingTables => 8,
        InitStage::Migrating => 7,
        InitStage::LoadingSeed => 6,
        InitStage::Inspecting(_) => 5,
        InitStage::ReadingKeys(_) => 4,
        InitStage::Writing(_) => 3,
        InitStage::Counting => 2,
        InitStage::Backfilling => 1,
        InitStage::Finished => 0,
    }
}

/// Every step moves the setup forward, so that it is over after at most nine
/// steps; a step that leaves it at an end says how it ended.
pub proof fn lemma_setup_moves_forward(stage: InitStage, event: InitEvent, next: InitStage, action: InitAction)
    requires
        event_fits(stage, event),
        !(stage is Finished),
        init_transition(stage, event, next, action),
    ensures
        steps_left(next) < steps_left(stage),
        next is Finished <==> action is Finish,
{
}

/// A store that already holds data is never cleared or seeded: once its data
/// is seen, the setup at most fills in the curriculums' level ids, then ends
/// in success.
pub proof fn lemma_filled_store_not_seeded(stage: InitStage, columns: Vec<TableColumns>, next: InitStage, action: InitAction)
    requires
        init_transition(stage, InitEvent::DataInspected { has_rows: true, columns }, next, action),
    ensures
        !(action is WriteSeed),
        !(next is ReadingKeys),
        action is BackfillLevels || action == InitAction::Finish(Ok(())),
        next is Backfilling ==> (forall|e: InitEvent, n: InitStage, a: InitAction|
            !(e is Failed) && event_fits(next, e) && init_transition(next, e, n, a) ==> a == InitAction::Finish(Ok(()))),
{
}

/// A second setup, on a store whose columns are those the first one left,
/// runs no schema step but the transcription backfill.
pub proof fn lemma_second_setup_schema(existing: Seq<TableColumns>, columns: Vec<TableColumns>, next: InitStage, action: InitAction)
    requires
        forall|t: Seq<char>, c: Seq<char>| #[trigger] has_column_spec(columns@, t, c) == has_column_after_plan(existing, t, c),
        init_transition(InitStage::CreatingTables, InitEvent::TablesCreated(columns), next, action),
    ensures
        action matches InitAction::ApplySchema(steps) && step_views(steps@) == seq![
            (WORDS_IPA_BACKFILL@, "failed to backfill words ipa fields"@),
        ],
{
    lemma_schema_plan_twice(existing, columns@);
}

/// On an empty store the catalogue's level ids are read from exactly those of
/// the books, curriculums and units tables that have a `level_id` column, and
/// from no other table.
pub proof fn lemma_level_tables_read(seed: SeedData, columns: Vec<TableColumns>, next: InitStage, action: InitAction)
    requires
        init_transition(InitStage::Inspecting(seed), InitEvent::DataInspected { has_rows: false, columns }, next, action),
    ensures
        action matches InitAction::ReadKeys { level_tables } && {
            &&& views(level_tables@).contains("books"@) == has_column_spec(columns@, "books"@, "level_id"@)
            &&& views(level_tables@).contains("curriculums"@) == has_column_spec(columns@, "curriculums"@, "level_id"@)
            &&& views(level_tables@).contains("units"@) == has_column_spec(columns@, "units"@, "level_id"@)
            &&& forall|i: int| 0 <= i < level_tables@.len() ==> {
                ||| #[trigger] views(level_tables@)[i] == "books"@
                ||| views(level_tables@)[i] == "curriculums"@
                ||| views(level_tables@)[i] == "units"@
            }
        },
{
    reveal_strlit("books");
    reveal_strlit("curriculums");
    reveal_strlit("units");
    assert("books"@[0] == 'b' && "curriculums"@[0] == 'c' && "units"@[0] == 'u');
    let lt = level_tables_spec(columns@);
    if has_column_spec(columns@, "books"@, "level_id"@) {
        assert(lt[0] == "books"@);
    }
    if has_column_spec(columns@, "curriculums"@, "level_id"@) {
        let j = if has_column_spec(columns@, "books"@, "level_id"@) { 1int } else { 0int };
        assert(lt[j] == "curriculums"@);
    }
    if has_column_spec(columns@, "units"@, "level_id"@) {
        assert(lt[lt.len() - 1] == "units"@);
    }
}

/// After the catalogue's keys are read on an empty store, the counts to check
/// after seeding name every table, and pair each table with the number of
/// seed records of that same table (units counted by distinct id), with
/// nothing counted yet.
pub proof fn lemma_counts_match_their_tables(seed: SeedData, keys: CatalogueKeys, next: InitStage, action: InitAction)
    requires
        init_transition(InitStage::ReadingKeys(seed), InitEvent::KeysRead(keys), next, action),
    ensures
        next matches InitStage::Writing(counts) && {
            &&& forall|k: int| 0 <= k < counts.len() ==> {
                &&& (#[trigger] counts@[k]).actual == 0
                &&& (counts@[k].table@ == "curriculums"@ ==> counts@[k].expected == seed.curriculums.len())
                &&& (counts@[k].table@ == "books"@ ==> counts@[k].expected == seed.books.len())
                &&& (counts@[k].table@ == "units"@ ==> counts@[k].expected == seed.units@.map_values(|u: SeedUnit| u.id@).to_set().len())
                &&& (counts@[k].table@ == "lessons"@ ==> counts@[k].expected == seed.lessons.len())
                &&& (counts@[k].table@ == "words"@ ==> counts@[k].expected == seed.words.len())
                &&& (counts@[k].table@ == "levels_code"@ ==> counts@[k].expected == seed.levels_code.len())
                &&& (counts@[k].table@ == "levels"@ ==> counts@[k].expected == seed.levels.len())
                &&& (counts@[k].table@ == "curriculum_units"@ ==> counts@[k].expected == seed.curriculum_units.len())
                &&& (counts@[k].table@ == "words_units"@ ==> counts@[k].expected == seed.words_units.len())
                &&& (counts@[k].table@ == "lessons_units"@ ==> counts@[k].expected == seed.lessons_units.len())
                &&& (counts@[k].table@ == "lessons_words"@ ==> counts@[k].expected == seed.lessons_words.len())
                &&& (counts@[k].table@ == "notes"@ ==> counts@[k].expected == seed.notes.len())
            }
            &&& exists|k: int| 0 <= k < counts.len() && (#[trigger] counts@[k]).table@ == "curriculums"@
            &&& exists|k: int| 0 <= k < counts.len() && (#[trigger] counts@[k]).table@ == "books"@
            &&& exists|k: int| 0 <= k < counts.len() && (#[trigger] counts@[k]).table@ == "units"@
            &&& exists|k: int| 0 <= k < counts.len() && (#[trigger] counts@[k]).table@ == "lessons"@
            &&& exists|k: int| 0 <= k < counts.len() && (#[trigger] counts@[k]).table@ == "words"@
            &&& exists|k: int| 0 <= k < counts.len() && (#[trigger] counts@[k]).table@ == "levels_code"@
            &&& exists|k: int| 0 <= k < counts.len() && (#[trigger] counts@[k]).table@ == "levels"@
            &&& exists|k: int| 0 <= k < counts.len() && (#[trigger] counts@[k]).table@ == "curriculum_units"@
            &&& exists|k: int| 0 <= k < counts.len() && (#[trigger] counts@[k]).table@ == "words_units"@
            &&& exists|k: int| 0 <= k < counts.len() && (#[trigger] counts@[k]).table@ == "lessons_units"@
            &&& exists|k: int| 0 <= k < counts.len() && (#[trigger] counts@[k]).table@ == "lessons_words"@
            &&& exists|k: int| 0 <= k < counts.len() && (#[trigger] counts@[k]).table@ == "notes"@
        },
{
    lemma_seed_keys_spelled_out(seed);
    reveal_strlit("curriculums");
    reveal_strlit("books");
    reveal_strlit("units");
    reveal_strlit("lessons");
    reveal_strlit("words");
    reveal_strlit("levels_code");
    reveal_strlit("levels");
    reveal_strlit("curriculum_units");
    reveal_strlit("words_units");
    reveal_strlit("lessons_units");
    reveal_strlit("lessons_words");
    reveal_strlit("notes");
    assert("curriculums"@.len() == 11 && "curriculums"@[0] == 'c' && "books"@.len() == 5 && "books"@[0] == 'b' && "units"@.len() == 5 && "units"@[0] == 'u' && "lessons"@.len() == 7 && "lessons"@[0] == 'l' && "words"@.len() == 5 && "words"@[0] == 'w' && "levels_code"@.len() == 11 && "levels_code"@[0] == 'l' && "levels"@.len() == 6 && "levels"@[0] == 'l' && "curriculum_units"@.len() == 16 && "curriculum_units"@[0] == 'c' && "words_units"@.len() == 11 && "words_units"@[0] == 'w' && "lessons_units"@.len() == 13 && "lessons_units"@[0] == 'l' && "lessons_words"@.len() == 13 && "lessons_words"@[0] == 'l' && "notes"@.len() == 5 && "notes"@[0] == 'n');
    assert("lessons_units"@[8] == 'u' && "lessons_words"@[8] == 'w');
    let counts = next->Writing_0;
    assert(counts@[0].table@ == "curriculums"@);
    assert(counts@[1].table@ == "books"@);
    assert(counts@[2].table@ == "units"@);
    assert(counts@[3].table@ == "lessons"@);
    assert(counts@[4].table@ == "words"@);
    assert(counts@[5].table@ == "levels_code"@);
    assert(counts@[6].table@ == "levels"@);
    assert(counts@[7].table@ == "curriculum_units"@);
    assert(counts@[8].table@ == "words_units"@);
    assert(counts@[9].table@ == "lessons_units"@);
    assert(counts@[10].table@ == "lessons_words"@);
    assert(counts@[11].table@ == "notes"@);
}

} // verus!
