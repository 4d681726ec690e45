use vocab_lessons::init::{event_answers, initialize_database, InitAction, InitEvent, InitStage};
use vocab_lessons::schema::TableColumns;
use vocab_lessons::seed::{
    CatalogueKeys, SeedCurriculum, SeedData, SeedUnit, TableCount,
};

fn s(x: &str) -> String {
    x.to_string()
}

fn curriculum(id: &str, level: Option<&str>) -> SeedCurriculum {
    SeedCurriculum {
        id: s(id),
        name: s("Name"),
        description: None,
        created_at: s("t"),
        updated_at: s("t"),
        level_id: level.map(s),
        student_book_id: None,
        type_: None,
        work_book_id: None,
        link_image: s(""),
    }
}

fn unit(id: &str) -> SeedUnit {
    SeedUnit { id: s(id), title: s("U"), level_id: s(""), book_id: None, created_at: s("t"), updated_at: s("t"), order: 0, link: None }
}

fn small_seed() -> SeedData {
    SeedData {
        curriculums: vec![curriculum("c1", Some("L1")), curriculum("c2", None), curriculum("c3", Some(""))],
        books: vec![],
        units: vec![unit("u1"), unit("u1"), unit("u2")],
        lessons: vec![],
        words: vec![],
        words_units: vec![],
        lessons_units: vec![],
        lessons_words: vec![],
        curriculum_units: vec![],
        levels_code: vec![],
        levels: vec![],
        notes: vec![],
    }
}

fn empty_keys() -> CatalogueKeys {
    CatalogueKeys {
        curriculum_ids: vec![],
        level_ids: vec![],
        book_ids: vec![],
        unit_ids: vec![],
        word_ids: vec![],
        lesson_ids: vec![],
        curriculum_unit_pairs: vec![],
        word_unit_pairs: vec![],
        lesson_unit_pairs: vec![],
        lesson_word_pairs: vec![],
        note_ids: vec![],
    }
}

fn table(name: &str, columns: &[&str]) -> TableColumns {
    TableColumns { table: s(name), columns: columns.iter().map(|c| s(c)).collect() }
}

fn current_columns() -> Vec<TableColumns> {
    vec![
        table("curriculums", &["id", "level_id", "link_image"]),
        table("books", &["id", "level_id", "type_"]),
        table("units", &["id", "title"]),
    ]
}

fn step(stage: InitStage, event: InitEvent) -> (InitStage, InitAction) {
    assert!(event_answers(&stage, &event));
    initialize_database(stage, event)
}

#[test]
fn setup_starts_by_creating_tables() {
    let (stage, action) = step(InitStage::Start, InitEvent::Begin);
    assert!(matches!(stage, InitStage::CreatingTables));
    assert!(matches!(action, InitAction::CreateTables));
}

#[test]
fn setup_runs_the_schema_plan() {
    let (stage, action) = step(InitStage::CreatingTables, InitEvent::TablesCreated(vec![]));
    assert!(matches!(stage, InitStage::Migrating));
    match action {
        InitAction::ApplySchema(steps) => {
            assert!(!steps.is_empty());
            assert_eq!(steps.last().unwrap().failure, "failed to backfill words ipa fields");
        }
        _ => panic!("expected schema steps"),
    }
    let (stage, action) = step(InitStage::Migrating, InitEvent::SchemaApplied);
    assert!(matches!(stage, InitStage::LoadingSeed));
    assert!(matches!(action, InitAction::LoadSeed));
}

#[test]
fn setup_failure_ends_with_its_message() {
    let (stage, action) = step(InitStage::Migrating, InitEvent::Failed(s("failed to open sqlite db: x")));
    assert!(matches!(stage, InitStage::Finished));
    match action {
        InitAction::Finish(Err(e)) => assert_eq!(e, "failed to open sqlite db: x"),
        _ => panic!("expected a failure"),
    }
}

#[test]
fn store_with_data_only_gets_level_ids() {
    let (stage, action) = step(InitStage::LoadingSeed, InitEvent::SeedLoaded(small_seed()));
    assert!(matches!(stage, InitStage::Inspecting(_)));
    assert!(matches!(action, InitAction::InspectData));
    let (stage, action) = step(stage, InitEvent::DataInspected { has_rows: true, columns: current_columns() });
    assert!(matches!(stage, InitStage::Backfilling));
    match action {
        InitAction::BackfillLevels(updates) => assert_eq!(updates, vec![(s("c1"), s("L1"))]),
        _ => panic!("expected a backfill"),
    }
    let (stage, action) = step(stage, InitEvent::LevelsBackfilled);
    assert!(matches!(stage, InitStage::Finished));
    assert!(matches!(action, InitAction::Finish(Ok(()))));
}

#[test]
fn store_with_data_and_no_level_column_is_left_alone() {
    let (stage, _) = step(InitStage::LoadingSeed, InitEvent::SeedLoaded(small_seed()));
    let (stage, action) = step(stage, InitEvent::DataInspected { has_rows: true, columns: vec![table("curriculums", &["id"])] });
    assert!(matches!(stage, InitStage::Finished));
    assert!(matches!(action, InitAction::Finish(Ok(()))));
}

#[test]
fn empty_store_is_seeded_and_counted() {
    let (stage, _) = step(InitStage::LoadingSeed, InitEvent::SeedLoaded(small_seed()));
    let (stage, action) = step(stage, InitEvent::DataInspected { has_rows: false, columns: current_columns() });
    assert!(matches!(stage, InitStage::ReadingKeys(_)));
    match action {
        InitAction::ReadKeys { level_tables } => assert_eq!(level_tables, vec![s("books"), s("curriculums")]),
        _ => panic!("expected a key read"),
    }
    let (stage, action) = step(stage, InitEvent::KeysRead(empty_keys()));
    match action {
        InitAction::WriteSeed { seed, clear } => {
            assert!(clear);
            assert_eq!(seed.curriculums.len(), 3);
        }
        _ => panic!("expected the seed to be written"),
    }
    let (stage, action) = step(stage, InitEvent::SeedWritten);
    assert!(matches!(stage, InitStage::Counting));
    let mut counts = match action {
        InitAction::CountRows(counts) => counts,
        _ => panic!("expected a count"),
    };
    let names: Vec<&str> = counts.iter().map(|c| c.table.as_str()).collect();
    assert_eq!(
        names,
        vec!["curriculums", "books", "units", "lessons", "words", "levels_code", "levels",
            "curriculum_units", "words_units", "lessons_units", "lessons_words", "notes"]
    );
    assert_eq!(counts[0].expected, 3);
    assert_eq!(counts[2].expected, 2);
    assert!(counts.iter().all(|c| c.actual == 0));
    counts[0].actual = 3;
    counts[2].actual = 3;
    let (stage, action) = step(stage, InitEvent::RowsCounted(counts));
    assert!(matches!(stage, InitStage::Finished));
    match action {
        InitAction::Finish(Err(e)) => assert_eq!(e, "seed verification failed: units: actual 3, expected 2"),
        _ => panic!("expected a count mismatch"),
    }
}

#[test]
fn matching_counts_finish_the_setup() {
    let counts = vec![TableCount { table: s("notes"), actual: 0, expected: 0 }];
    let (_, action) = step(InitStage::Counting, InitEvent::RowsCounted(counts));
    assert!(matches!(action, InitAction::Finish(Ok(()))));
}

#[test]
fn events_out_of_order_are_recognised() {
    assert!(!event_answers(&InitStage::Start, &InitEvent::SchemaApplied));
    assert!(!event_answers(&InitStage::Counting, &InitEvent::SeedWritten));
    assert!(event_answers(&InitStage::Finished, &InitEvent::Failed(s("x"))));
}

#[test]
fn a_second_setup_only_refills_transcriptions() {
    let columns = vec![
        table("curriculums", &["id", "link_image", "level_id"]),
        table("books", &["id", "level_id"]),
        table("units", &["id", "level_id"]),
        table("lessons", &["id", "curriculum_id", "order", "category", "duration", "description", "deleted_at"]),
        table("levels_code", &["id", "code"]),
        table("levels", &["id", "description", "order_index", "category", "created_at", "updated_at"]),
        table("words", &["id", "ipa", "uk_ipa", "us_ipa", "popularity", "parent_id"]),
        table("words_units", &["word_id", "custom"]),
        table("lessons_words", &["lesson_id", "word_reads_per_round", "word_pause_time"]),
        table("notes", &["id", "unit_id"]),
    ];
    let (_, action) = step(InitStage::CreatingTables, InitEvent::TablesCreated(columns));
    match action {
        InitAction::ApplySchema(steps) => {
            assert_eq!(steps.len(), 1);
            assert_eq!(steps[0].failure, "failed to backfill words ipa fields");
        }
        _ => panic!("expected schema steps"),
    }
}
