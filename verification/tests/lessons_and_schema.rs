use vocab_lessons::catalogue::{curriculum_meta, level_info};
use vocab_lessons::lessons::{
    lesson_update_outcome, new_lesson_full, plan_unit_word_links, word_bulk_values,
    word_progress_values, word_update_values, WordBulkPayload, WordProgressPayload,
    WordUpdatePayload,
};
use vocab_lessons::schema::{
    has_column, schema_plan, TableColumns, LEVEL_CODE_BACKFILL, LEVEL_CODE_COLUMN,
    NOTES_UNIT_COLUMN, WORDS_IPA_BACKFILL,
};

fn s(x: &str) -> String {
    x.to_string()
}

#[test]
fn new_lessons_start_with_untitled_units() {
    let ids = vec![s("u1"), s("u2")];
    let full = new_lesson_full(s("lesson-1"), s("Animals"), &ids, vec![]);
    assert_eq!(full.lesson.id, "lesson-1");
    assert_eq!(full.lesson.name, "Animals");
    assert_eq!(full.lesson.order, 0);
    assert_eq!(full.lesson.progress, 0);
    let units: Vec<(&str, &str)> =
        full.lesson_units.iter().map(|u| (u.unit_id.as_str(), u.unit_title.as_str())).collect();
    assert_eq!(units, vec![("u1", ""), ("u2", "")]);
    assert!(full.lesson_words.is_empty());
}

#[test]
fn absent_word_settings_are_zero() {
    let w = WordUpdatePayload {
        word_id: s("w"),
        word_progress: Some(3),
        word_max_read: None,
        word_show_ipa: Some(1),
        word_show_word: None,
        word_show_ipa_and_word: None,
        word_reads_per_round: Some(2),
        word_pause_time: None,
    };
    let v = word_update_values(&w);
    assert_eq!(
        (v.word_progress, v.word_max_read, v.word_show_ipa, v.word_show_word, v.word_show_ipa_and_word, v.word_reads_per_round, v.word_pause_time),
        (3, 0, 1, 0, 0, 2, 0)
    );
    let b = WordBulkPayload {
        word_id: s("w"),
        word_progress: None,
        word_max_read: Some(9),
        word_show_ipa: None,
        word_show_word: Some(1),
        word_show_ipa_and_word: Some(1),
        word_reads_per_round: None,
        word_pause_time: Some(500),
    };
    let v = word_bulk_values(&b);
    assert_eq!(
        (v.word_progress, v.word_max_read, v.word_show_ipa, v.word_show_word, v.word_show_ipa_and_word, v.word_reads_per_round, v.word_pause_time),
        (0, 9, 0, 1, 1, 0, 500)
    );
    let p = WordProgressPayload { word_id: s("w"), word_progress: None, word_pause_time: Some(7) };
    assert_eq!(word_progress_values(&p), (0, 7));
}

#[test]
fn updating_a_missing_lesson_fails() {
    assert_eq!(lesson_update_outcome(0), Err(s("lesson not found or access denied")));
    assert_eq!(lesson_update_outcome(1), Ok(()));
}

#[test]
fn words_are_linked_once_each() {
    let ids = vec![s("a"), s("b"), s("a"), s("c"), s("d"), s("b")];
    let exists = vec![true, true, true, false, true, true];
    let in_unit = vec![false, false, false, false, true, false];
    assert_eq!(plan_unit_word_links(&ids, &exists, &in_unit), vec![0, 1]);
    let none = plan_unit_word_links(&vec![s("x")], &vec![false], &vec![false]);
    assert!(none.is_empty());
}

#[test]
fn levels_are_known_only_when_complete() {
    let l = level_info(Some(s("L1")), Some(s("Starter")), Some(s("A1"))).unwrap();
    assert_eq!((l.id.as_str(), l.name.as_str(), l.code_name.as_str()), ("L1", "Starter", "A1"));
    assert!(level_info(Some(s("L1")), None, Some(s("A1"))).is_none());
    assert!(level_info(None, None, None).is_none());
}

#[test]
fn there_is_always_a_page() {
    let m = curriculum_meta(0, 1, 20, 0);
    assert_eq!((m.total, m.page, m.limit, m.total_pages), (0, 1, 20, 1));
    let m = curriculum_meta(45, 2, 20, 3);
    assert_eq!(m.total_pages, 3);
}

fn table(name: &str, cols: &[&str]) -> TableColumns {
    TableColumns { table: s(name), columns: cols.iter().map(|c| s(c)).collect() }
}

fn current_schema() -> Vec<TableColumns> {
    vec![
        table("curriculums", &["id", "link_image", "level_id"]),
        table("books", &["id", "level_id"]),
        table("units", &["id", "level_id"]),
        table("lessons", &["id", "curriculum_id", "order", "category", "duration", "description", "deleted_at"]),
        table("levels_code", &["id", "code"]),
        table("levels", &["id", "description", "order_index", "category", "created_at", "updated_at"]),
        table("words", &["id", "ipa", "uk_ipa", "us_ipa", "popularity", "parent_id"]),
        table("words_units", &["word_id", "custom"]),
        table("lessons_words", &["lesson_id", "word_reads_per_round", "word_pause_time"]),
        table("notes", &["id", "unit_id"]),
    ]
}

#[test]
fn an_up_to_date_schema_only_refills_transcriptions() {
    let steps = schema_plan(&current_schema());
    assert_eq!(steps.len(), 1);
    assert_eq!(steps[0].sql, WORDS_IPA_BACKFILL);
    assert_eq!(steps[0].failure, "failed to backfill words ipa fields");
}

#[test]
fn missing_columns_are_added_in_order() {
    let mut schema = current_schema();
    schema[0] = table("curriculums", &["id"]);
    schema[4] = table("levels_code", &["id", "name"]);
    schema[9] = table("notes", &["id"]);
    assert!(has_column(&schema, "levels_code", "name"));
    assert!(!has_column(&schema, "levels_code", "code"));
    let steps = schema_plan(&schema);
    let got: Vec<(&str, &str)> = steps.iter().map(|s| (s.sql.as_str(), s.failure.as_str())).collect();
    assert_eq!(
        got,
        vec![
            ("ALTER TABLE curriculums ADD COLUMN link_image TEXT NOT NULL DEFAULT ''", "failed to migrate curriculums.link_image"),
            ("ALTER TABLE curriculums ADD COLUMN level_id TEXT NOT NULL DEFAULT ''", "failed to migrate curriculums.level_id"),
            (LEVEL_CODE_COLUMN, "failed to migrate levels_code.code"),
            (LEVEL_CODE_BACKFILL, "failed to backfill levels_code.code"),
            (WORDS_IPA_BACKFILL, "failed to backfill words ipa fields"),
            (NOTES_UNIT_COLUMN, "failed to migrate notes.unit_id"),
        ]
    );
}

#[test]
fn notes_without_a_table_get_no_column() {
    let mut schema = current_schema();
    schema.pop();
    let steps = schema_plan(&schema);
    assert_eq!(steps.len(), 1);
}

#[test]
fn a_second_schema_run_adds_nothing() {
    let mut schema = current_schema();
    schema[0] = table("curriculums", &["id"]);
    schema[3] = table("lessons", &["id"]);
    schema[4] = table("levels_code", &["id", "name"]);
    schema[9] = table("notes", &["id"]);
    for step in schema_plan(&schema) {
        let Some(rest) = step.sql.strip_prefix("ALTER TABLE ") else { continue };
        let mut parts = rest.split(' ');
        let t = parts.next().unwrap().to_string();
        let c = parts.nth(2).unwrap().trim_matches('"').to_string();
        let entry = schema.iter_mut().find(|e| e.table == t).unwrap();
        entry.columns.push(c);
    }
    let again = schema_plan(&schema);
    assert_eq!(again.len(), 1);
    assert_eq!(again[0].sql, WORDS_IPA_BACKFILL);
}
