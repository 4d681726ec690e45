use vstd::prelude::*;

use crate::keys::{contains_key, views};
use crate::text::{concat2, concat3, owned, str_eq};

verus! {

/// The columns a table of the store has.
#[derive(Debug)]
pub struct TableColumns {
    pub table: String,
    pub columns: Vec<String>,
}

/// A statement that brings the store's schema up to date, and what its
/// failure is reported as.
#[derive(Debug)]
pub struct SchemaStep {
    pub sql: String,
    pub failure: String,
}

/// Whether table `t` has column `c`.
pub open spec fn has_column_spec(existing: Seq<TableColumns>, t: Seq<char>, c: Seq<char>) -> bool {
    exists|i: int|
        0 <= i < existing.len() && (#[trigger] existing[i]).table@ == t && views(
            existing[i].columns@,
        ).contains(c)
}

/// Whether a table has a column, given the columns of the tables.
pub fn has_column(existing: &Vec<TableColumns>, table: &str, column: &str) -> (r: bool)
    ensures
        r == has_column_spec(existing@, table@, column@),
{
    let mut i: usize = 0;
    while i < existing.len()
        invariant
            i <= existing.len(),
            forall|j: int|
                0 <= j < i ==> !((#[trigger] existing@[j]).table@ == table@ && views(
                    existing@[j].columns@,
                ).contains(column@)),
        decreases existing.len() - i,
    {
        if str_eq(existing[i].table.as_str(), table) && contains_key(&existing[i].columns, column) {
            return true;
        }
        i = i + 1;
    }
    false
}

/// The columns added to tables created by earlier versions, before the level
/// codes: table, column, and the statement that adds it.
pub open spec fn early_columns() -> Seq<(Seq<char>, Seq<char>, Seq<char>)> {
    seq![
        ("curriculums"@, "link_image"@, "ALTER TABLE curriculums ADD COLUMN link_image TEXT NOT NULL DEFAULT ''"@),
        ("curriculums"@, "level_id"@, "ALTER TABLE curriculums ADD COLUMN level_id TEXT NOT NULL DEFAULT ''"@),
        ("books"@, "level_id"@, "ALTER TABLE books ADD COLUMN level_id TEXT NOT NULL DEFAULT ''"@),
        ("units"@, "level_id"@, "ALTER TABLE units ADD COLUMN level_id TEXT NOT NULL DEFAULT ''"@),
        ("lessons"@, "curriculum_id"@, "ALTER TABLE lessons ADD COLUMN curriculum_id TEXT NOT NULL DEFAULT ''"@),
        ("lessons"@, "order"@, "ALTER TABLE lessons ADD COLUMN \"order\" INTEGER NOT NULL DEFAULT 0"@),
        ("lessons"@, "category"@, "ALTER TABLE lessons ADD COLUMN category TEXT NOT NULL DEFAULT ''"@),
        ("lessons"@, "duration"@, "ALTER TABLE lessons ADD COLUMN duration INTEGER NOT NULL DEFAULT 0"@),
        ("lessons"@, "description"@, "ALTER TABLE lessons ADD COLUMN description TEXT NOT NULL DEFAULT ''"@),
        ("lessons"@, "deleted_at"@, "ALTER TABLE lessons ADD COLUMN deleted_at TEXT"@),
    ]
}

/// The columns added after the level codes.
pub open spec fn late_columns() -> Seq<(Seq<char>, Seq<char>, Seq<char>)> {
    seq![
        ("levels"@, "description"@, "ALTER TABLE levels ADD COLUMN description TEXT NOT NULL DEFAULT ''"@),
        ("levels"@, "order_index"@, "ALTER TABLE levels ADD COLUMN order_index INTEGER NOT NULL DEFAULT 0"@),
        ("levels"@, "category"@, "ALTER TABLE levels ADD COLUMN category TEXT NOT NULL DEFAULT ''"@),
        ("levels"@, "created_at"@, "ALTER TABLE levels ADD COLUMN created_at TEXT NOT NULL DEFAULT ''"@),
        ("levels"@, "updated_at"@, "ALTER TABLE levels ADD COLUMN updated_at TEXT NOT NULL DEFAULT ''"@),
        ("words"@, "ipa"@, "ALTER TABLE words ADD COLUMN ipa TEXT NOT NULL DEFAULT ''"@),
        ("words"@, "uk_ipa"@, "ALTER TABLE words ADD COLUMN uk_ipa TEXT NOT NULL DEFAULT ''"@),
        ("words"@, "us_ipa"@, "ALTER TABLE words ADD COLUMN us_ipa TEXT NOT NULL DEFAULT ''"@),
        ("words"@, "popularity"@, "ALTER TABLE words ADD COLUMN popularity INTEGER NOT NULL DEFAULT 0"@),
        ("words"@, "parent_id"@, "ALTER TABLE words ADD COLUMN parent_id TEXT"@),
        ("words_units"@, "custom"@, "ALTER TABLE words_units ADD COLUMN custom INTEGER NOT NULL DEFAULT 0"@),
        ("lessons_words"@, "word_reads_per_round"@, "ALTER TABLE lessons_words ADD COLUMN word_reads_per_round INTEGER NOT NULL DEFAULT 0"@),
        ("lessons_words"@, "word_pause_time"@, "ALTER TABLE lessons_words ADD COLUMN word_pause_time INTEGER NOT NULL DEFAULT 0"@),
    ]
}

pub open spec fn triple_views(v: Seq<(&'static str, &'static str, &'static str)>) -> Seq<(Seq<char>, Seq<char>, Seq<char>)> {
    v.map_values(|e: (&'static str, &'static str, &'static str)| (e.0@, e.1@, e.2@))
}

fn early_column_list() -> (r: Vec<(&'static str, &'static str, &'static str)>)
    ensures
        triple_views(r@) == early_columns(),
{
    let r = vec![
        ("curriculums", "link_image", "ALTER TABLE curriculums ADD COLUMN link_image TEXT NOT NULL DEFAULT ''"),
        ("curriculums", "level_id", "ALTER TABLE curriculums ADD COLUMN level_id TEXT NOT NULL DEFAULT ''"),
        ("books", "level_id", "ALTER TABLE books ADD COLUMN level_id TEXT NOT NULL DEFAULT ''"),
        ("units", "level_id", "ALTER TABLE units ADD COLUMN level_id TEXT NOT NULL DEFAULT ''"),
        ("lessons", "curriculum_id", "ALTER TABLE lessons ADD COLUMN curriculum_id TEXT NOT NULL DEFAULT ''"),
        ("lessons", "order", "ALTER TABLE lessons ADD COLUMN \"order\" INTEGER NOT NULL DEFAULT 0"),
        ("lessons", "category", "ALTER TABLE lessons ADD COLUMN category TEXT NOT NULL DEFAULT ''"),
        ("lessons", "duration", "ALTER TABLE lessons ADD COLUMN duration INTEGER NOT NULL DEFAULT 0"),
        ("lessons", "description", "ALTER TABLE lessons ADD COLUMN description TEXT NOT NULL DEFAULT ''"),
        ("lessons", "deleted_at", "ALTER TABLE lessons ADD COLUMN deleted_at TEXT"),
    ];
    assert(triple_views(r@) =~= early_columns());
    r
}

fn late_column_list() -> (r: Vec<(&'static str, &'static str, &'static str)>)
    ensures
        triple_views(r@) == late_columns(),
{
    let r = vec![
        ("levels", "description", "ALTER TABLE levels ADD COLUMN description TEXT NOT NULL DEFAULT ''"),
        ("levels", "order_index", "ALTER TABLE levels ADD COLUMN order_index INTEGER NOT NULL DEFAULT 0"),
        ("levels", "category", "ALTER TABLE levels ADD COLUMN category TEXT NOT NULL DEFAULT ''"),
        ("levels", "created_at", "ALTER TABLE levels ADD COLUMN created_at TEXT NOT NULL DEFAULT ''"),
        ("levels", "updated_at", "ALTER TABLE levels ADD COLUMN updated_at TEXT NOT NULL DEFAULT ''"),
        ("words", "ipa", "ALTER TABLE words ADD COLUMN ipa TEXT NOT NULL DEFAULT ''"),
        ("words", "uk_ipa", "ALTER TABLE words ADD COLUMN uk_ipa TEXT NOT NULL DEFAULT ''"),
        ("words", "us_ipa", "ALTER TABLE words ADD COLUMN us_ipa TEXT NOT NULL DEFAULT ''"),
        ("words", "popularity", "ALTER TABLE words ADD COLUMN popularity INTEGER NOT NULL DEFAULT 0"),
        ("words", "parent_id", "ALTER TABLE words ADD COLUMN parent_id TEXT"),
        ("words_units", "custom", "ALTER TABLE words_units ADD COLUMN custom INTEGER NOT NULL DEFAULT 0"),
        ("lessons_words", "word_reads_per_round", "ALTER TABLE lessons_words ADD COLUMN word_reads_per_round INTEGER NOT NULL DEFAULT 0"),
        ("lessons_words", "word_pause_time", "ALTER TABLE lessons_words ADD COLUMN word_pause_time INTEGER NOT NULL DEFAULT 0"),
    ];
    assert(triple_views(r@) =~= late_columns());
    r
}

/// How the failure to add a column is reported.
pub open spec fn migrate_failure(t: Seq<char>, c: Seq<char>) -> Seq<char> {
    "failed to migrate "@ + t + "."@ + c
}

/// The step that adds each column its table lacks, in order.
pub open spec fn column_steps_spec(existing: Seq<TableColumns>, cols: Seq<(Seq<char>, Seq<char>, Seq<char>)>) -> Seq<(Seq<char>, Seq<char>)>
    decreases cols.len(),
{
    if cols.len() == 0 {
        seq![]
    } else {
        let p = column_steps_spec(existing, cols.drop_last());
        let (t, c, s) = cols.last();
        if has_column_spec(existing, t, c) {
            p
        } else {
            p.push((s, migrate_failure(t, c)))
        }
    }
}

pub open spec fn step_views(v: Seq<SchemaStep>) -> Seq<(Seq<char>, Seq<char>)> {
    v.map_values(|s: SchemaStep| (s.sql@, s.failure@))
}

fn push_column_steps(existing: &Vec<TableColumns>, cols: &Vec<(&'static str, &'static str, &'static str)>, steps: &mut Vec<SchemaStep>)
    ensures
        step_views(final(steps)@) == step_views(old(steps)@) + column_steps_spec(existing@, triple_views(cols@)),
{
    let ghost start = step_views(steps@);
    let mut i: usize = 0;
    assert(cols@.take(0) =~= Seq::<(&'static str, &'static str, &'static str)>::empty());
    assert(triple_views(cols@.take(0)) =~= Seq::<(Seq<char>, Seq<char>, Seq<char>)>::empty());
    assert(start + Seq::<(Seq<char>, Seq<char>)>::empty() =~= start);
    while i < cols.len()
        invariant
            i <= cols.len(),
            step_views(steps@) == start + column_steps_spec(existing@, triple_views(cols@.take(i as int))),
        decreases cols.len() - i,
    {
        let (t, c, s) = cols[i];
        assert(triple_views(cols@.take(i + 1)) =~= triple_views(cols@.take(i as int)).push((t@, c@, s@)));
        assert(triple_views(cols@.take(i + 1)).drop_last() =~= triple_views(cols@.take(i as int)));
        if !has_column(existing, t, c) {
            let ghost old_steps = steps@;
            let mut failure = concat3("failed to migrate ", t, ".");
            failure.append(c);
            steps.push(SchemaStep { sql: owned(s), failure });
            assert(step_views(steps@) =~= step_views(old_steps).push((s@, migrate_failure(t@, c@))));
        }
        i = i + 1;
    }
    assert(cols@.take(cols.len() as int) =~= cols@);
}

pub const LEVEL_CODE_BACKFILL: &'static str = "UPDATE levels_code SET code = name WHERE code = ''";

pub const WORDS_IPA_BACKFILL: &'static str = "UPDATE words\n             SET uk_ipa = CASE WHEN uk_ipa = '' THEN ipa_uk ELSE uk_ipa END,\n                 us_ipa = CASE WHEN us_ipa = '' THEN ipa_us ELSE us_ipa END,\n                 ipa = CASE WHEN ipa = '' THEN ipa_uk ELSE ipa END";

pub const NOTES_UNIT_COLUMN: &'static str = "ALTER TABLE notes ADD COLUMN unit_id TEXT NOT NULL DEFAULT ''";

pub const LEVEL_CODE_COLUMN: &'static str = "ALTER TABLE levels_code ADD COLUMN code TEXT NOT NULL DEFAULT ''";

/// The steps that bring the schema of an existing store up to date, given the
/// columns its tables have once every table exists: each missing column is
/// added, in a fixed order; when the level codes lack their `code` column it is
/// added and, where they still have the `name` column it replaces, filled from
/// it; the stored transcriptions are then filled in from the older columns;
/// last, notes gain their `unit_id` column where the notes table lacks it.
pub open spec fn schema_plan_spec(existing: Seq<TableColumns>) -> Seq<(Seq<char>, Seq<char>)> {
    let code_steps = if has_column_spec(existing, "levels_code"@, "code"@) {
        seq![]
    } else if has_column_spec(existing, "levels_code"@, "name"@) {
        seq![
            (LEVEL_CODE_COLUMN@, migrate_failure("levels_code"@, "code"@)),
            (LEVEL_CODE_BACKFILL@, "failed to backfill levels_code.code"@),
        ]
    } else {
        seq![(LEVEL_CODE_COLUMN@, migrate_failure("levels_code"@, "code"@))]
    };
    let note_steps = if has_column_spec(existing, "notes"@, "id"@) && !has_column_spec(
        existing,
        "notes"@,
        "unit_id"@,
    ) {
        seq![(NOTES_UNIT_COLUMN@, migrate_failure("notes"@, "unit_id"@))]
    } else {
        seq![]
    };
    column_steps_spec(existing, early_columns()) + code_steps + column_steps_spec(
        existing,
        late_columns(),
    ) + seq![(WORDS_IPA_BACKFILL@, "failed to backfill words ipa fields"@)] + note_steps
}

pub fn schema_plan(existing: &Vec<TableColumns>) -> (r: Vec<SchemaStep>)
    ensures
        step_views(r@) == schema_plan_spec(existing@),
{
    proof {
        reveal_strlit("failed to migrate levels_code.code");
        reveal_strlit("failed to migrate notes.unit_id");
        reveal_strlit("failed to migrate ");
        reveal_strlit("levels_code");
        reveal_strlit("notes");
        reveal_strlit("code");
        reveal_strlit("unit_id");
        reveal_strlit(".");
        assert(migrate_failure("levels_code"@, "code"@) =~= "failed to migrate levels_code.code"@);
        assert(migrate_failure("notes"@, "unit_id"@) =~= "failed to migrate notes.unit_id"@);
    }
    let ghost spec_code = if has_column_spec(existing@, "levels_code"@, "code"@) {
        Seq::<(Seq<char>, Seq<char>)>::empty()
    } else if has_column_spec(existing@, "levels_code"@, "name"@) {
        seq![
            (LEVEL_CODE_COLUMN@, migrate_failure("levels_code"@, "code"@)),
            (LEVEL_CODE_BACKFILL@, "failed to backfill levels_code.code"@),
        ]
    } else {
        seq![(LEVEL_CODE_COLUMN@, migrate_failure("levels_code"@, "code"@))]
    };
    let ghost spec_notes = if has_column_spec(existing@, "notes"@, "id"@) && !has_column_spec(
        existing@,
        "notes"@,
        "unit_id"@,
    ) {
        seq![(NOTES_UNIT_COLUMN@, migrate_failure("notes"@, "unit_id"@))]
    } else {
        Seq::<(Seq<char>, Seq<char>)>::empty()
    };
    let mut steps: Vec<SchemaStep> = Vec::new();
    assert(step_views(steps@) =~= Seq::<(Seq<char>, Seq<char>)>::empty());
    let early = early_column_list();
    push_column_steps(existing, &early, &mut steps);
    let ghost a1 = step_views(steps@);
    assert(a1 =~= column_steps_spec(existing@, early_columns()));
    if !has_column(existing, "levels_code", "code") {
        steps.push(SchemaStep { sql: owned(LEVEL_CODE_COLUMN), failure: owned("failed to migrate levels_code.code") });
        if has_column(existing, "levels_code", "name") {
            steps.push(SchemaStep { sql: owned(LEVEL_CODE_BACKFILL), failure: owned("failed to backfill levels_code.code") });
        }
    }
    let ghost a2 = step_views(steps@);
    assert(a2 =~= a1 + spec_code);
    let late = late_column_list();
    push_column_steps(existing, &late, &mut steps);
    let ghost a3 = step_views(steps@);
    assert(a3 =~= a2 + column_steps_spec(existing@, late_columns()));
    steps.push(SchemaStep { sql: owned(WORDS_IPA_BACKFILL), failure: owned("failed to backfill words ipa fields") });
    let ghost a4 = step_views(steps@);
    assert(a4 =~= a3 + seq![(WORDS_IPA_BACKFILL@, "failed to backfill words ipa fields"@)]);
    if has_column(existing, "notes", "id") && !has_column(existing, "notes", "unit_id") {
        steps.push(SchemaStep { sql: owned(NOTES_UNIT_COLUMN), failure: owned("failed to migrate notes.unit_id") });
    }
    assert(step_views(steps@) =~= a4 + spec_notes);
    assert(step_views(steps@) =~= schema_plan_spec(existing@));
    steps
}

proof fn lemma_column_steps_none(existing: Seq<TableColumns>, cols: Seq<(Seq<char>, Seq<char>, Seq<char>)>)
    requires
        forall|k: int| 0 <= k < cols.len() ==> has_column_spec(existing, (#[trigger] cols[k]).0, cols[k].1),
    ensures
        column_steps_spec(existing, cols) == Seq::<(Seq<char>, Seq<char>)>::empty(),
    decreases cols.len(),
{
    if cols.len() > 0 {
        let p = cols.drop_last();
        assert forall|k: int| 0 <= k < p.len() implies has_column_spec(existing, (#[trigger] p[k]).0, p[k].1) by {
            assert(p[k] == cols[k]);
        }
        lemma_column_steps_none(existing, p);
        assert(has_column_spec(existing, cols[cols.len() - 1].0, cols[cols.len() - 1].1));
    }
}

/// A store whose schema is up to date needs no column added: once every
/// column exists (and notes, if their table exists, have their unit column),
/// bringing the schema up to date only fills in the transcriptions again.
pub proof fn lemma_schema_plan_up_to_date(existing: Seq<TableColumns>)
    requires
        forall|k: int| 0 <= k < early_columns().len() ==> has_column_spec(existing, (#[trigger] early_columns()[k]).0, early_columns()[k].1),
        forall|k: int| 0 <= k < late_columns().len() ==> has_column_spec(existing, (#[trigger] late_columns()[k]).0, late_columns()[k].1),
        has_column_spec(existing, "levels_code"@, "code"@),
        has_column_spec(existing, "notes"@, "id"@) ==> has_column_spec(existing, "notes"@, "unit_id"@),
    ensures
        schema_plan_spec(existing) == seq![(WORDS_IPA_BACKFILL@, "failed to backfill words ipa fields"@)],
{
    lemma_column_steps_none(existing, early_columns());
    lemma_column_steps_none(existing, late_columns());
    assert(schema_plan_spec(existing) =~= seq![(WORDS_IPA_BACKFILL@, "failed to backfill words ipa fields"@)]);
}

/// No listed column is an `id` column.
proof fn lemma_no_listed_id()
    ensures
        forall|k: int| 0 <= k < early_columns().len() ==> (#[trigger] early_columns()[k]).1.len() > 2,
        forall|k: int| 0 <= k < late_columns().len() ==> (#[trigger] late_columns()[k]).1.len() > 2,
{
    reveal_strlit("link_image");
    reveal_strlit("level_id");
    reveal_strlit("curriculum_id");
    reveal_strlit("order");
    reveal_strlit("category");
    reveal_strlit("duration");
    reveal_strlit("description");
    reveal_strlit("deleted_at");
    reveal_strlit("order_index");
    reveal_strlit("created_at");
    reveal_strlit("updated_at");
    reveal_strlit("ipa");
    reveal_strlit("uk_ipa");
    reveal_strlit("us_ipa");
    reveal_strlit("popularity");
    reveal_strlit("parent_id");
    reveal_strlit("custom");
    reveal_strlit("word_reads_per_round");
    reveal_strlit("word_pause_time");
}

/// Whether table `t` has column `c` once the steps planned for `existing`
/// have run: it had it already, or a step adds it (the listed columns, the
/// level codes' `code`, and the notes' `unit_id` where the notes table has
/// its `id`).
pub open spec fn has_column_after_plan(existing: Seq<TableColumns>, t: Seq<char>, c: Seq<char>) -> bool {
    ||| has_column_spec(existing, t, c)
    ||| exists|k: int| 0 <= k < early_columns().len() && (#[trigger] early_columns()[k]).0 == t && early_columns()[k].1 == c
    ||| exists|k: int| 0 <= k < late_columns().len() && (#[trigger] late_columns()[k]).0 == t && late_columns()[k].1 == c
    ||| t == "levels_code"@ && c == "code"@
    ||| t == "notes"@ && c == "unit_id"@ && has_column_spec(existing, "notes"@, "id"@)
}

/// Bringing the schema up to date a second time adds nothing: on a store
/// whose columns are those that the first run leaves, the plan holds no
/// column step and only fills in the transcriptions again.
pub proof fn lemma_schema_plan_twice(existing: Seq<TableColumns>, after: Seq<TableColumns>)
    requires
        forall|t: Seq<char>, c: Seq<char>| #[trigger] has_column_spec(after, t, c) == has_column_after_plan(existing, t, c),
    ensures
        schema_plan_spec(after) == seq![(WORDS_IPA_BACKFILL@, "failed to backfill words ipa fields"@)],
{
    assert forall|k: int| 0 <= k < early_columns().len() implies has_column_spec(after, (#[trigger] early_columns()[k]).0, early_columns()[k].1) by {
        assert(has_column_after_plan(existing, early_columns()[k].0, early_columns()[k].1));
    }
    assert forall|k: int| 0 <= k < late_columns().len() implies has_column_spec(after, (#[trigger] late_columns()[k]).0, late_columns()[k].1) by {
        assert(has_column_after_plan(existing, late_columns()[k].0, late_columns()[k].1));
    }
    assert(has_column_spec(after, "levels_code"@, "code"@));
    if has_column_spec(after, "notes"@, "id"@) {
        assert(has_column_after_plan(existing, "notes"@, "id"@));
        lemma_no_listed_id();
        reveal_strlit("id");
        reveal_strlit("code");
        reveal_strlit("unit_id");
        assert("id"@.len() == 2 && "code"@.len() == 4 && "unit_id"@.len() == 7);
        assert(has_column_spec(existing, "notes"@, "id"@));
        assert(has_column_spec(after, "notes"@, "unit_id"@));
    }
    lemma_schema_plan_up_to_date(after);
}

proof fn lemma_column_step_present(existing: Seq<TableColumns>, cols: Seq<(Seq<char>, Seq<char>, Seq<char>)>, k: int)
    requires
        0 <= k < cols.len(),
        !has_column_spec(existing, cols[k].0, cols[k].1),
    ensures
        column_steps_spec(existing, cols).contains((cols[k].2, migrate_failure(cols[k].0, cols[k].1))),
    decreases cols.len(),
{
    let steps = column_steps_spec(existing, cols);
    if k == cols.len() - 1 {
        assert(steps[steps.len() - 1] == (cols[k].2, migrate_failure(cols[k].0, cols[k].1)));
    } else {
        let p = cols.drop_last();
        assert(p[k] == cols[k]);
        lemma_column_step_present(existing, p, k);
        let prev = column_steps_spec(existing, p);
        let j = choose|j: int| 0 <= j < prev.len() && prev[j] == (cols[k].2, migrate_failure(cols[k].0, cols[k].1));
        assert(steps[j] == prev[j]);
    }
}

/// Bringing the schema up to date adds each column the application uses that
/// the store lacks, by its statement: the columns listed here, the level
/// codes' `code`, and the notes' `unit_id` where the notes table exists.
pub proof fn lemma_schema_plan_adds_missing_columns(existing: Seq<TableColumns>)
    ensures
        ({
            let used: Seq<(Seq<char>, Seq<char>, Seq<char>)> = seq![
                ("curriculums"@, "link_image"@, "ALTER TABLE curriculums ADD COLUMN link_image TEXT NOT NULL DEFAULT ''"@),
                ("curriculums"@, "level_id"@, "ALTER TABLE curriculums ADD COLUMN level_id TEXT NOT NULL DEFAULT ''"@),
                ("books"@, "level_id"@, "ALTER TABLE books ADD COLUMN level_id TEXT NOT NULL DEFAULT ''"@),
                ("units"@, "level_id"@, "ALTER TABLE units ADD COLUMN level_id TEXT NOT NULL DEFAULT ''"@),
                ("lessons"@, "curriculum_id"@, "ALTER TABLE lessons ADD COLUMN curriculum_id TEXT NOT NULL DEFAULT ''"@),
                ("lessons"@, "order"@, "ALTER TABLE lessons ADD COLUMN \"order\" INTEGER NOT NULL DEFAULT 0"@),
                ("lessons"@, "category"@, "ALTER TABLE lessons ADD COLUMN category TEXT NOT NULL DEFAULT ''"@),
                ("lessons"@, "duration"@, "ALTER TABLE lessons ADD COLUMN duration INTEGER NOT NULL DEFAULT 0"@),
                ("lessons"@, "description"@, "ALTER TABLE lessons ADD COLUMN description TEXT NOT NULL DEFAULT ''"@),
                ("lessons"@, "deleted_at"@, "ALTER TABLE lessons ADD COLUMN deleted_at TEXT"@),
            ] + seq![
                ("levels"@, "description"@, "ALTER TABLE levels ADD COLUMN description TEXT NOT NULL DEFAULT ''"@),
                ("levels"@, "order_index"@, "ALTER TABLE levels ADD COLUMN order_index INTEGER NOT NULL DEFAULT 0"@),
                ("levels"@, "category"@, "ALTER TABLE levels ADD COLUMN category TEXT NOT NULL DEFAULT ''"@),
                ("levels"@, "created_at"@, "ALTER TABLE levels ADD COLUMN created_at TEXT NOT NULL DEFAULT ''"@),
                ("levels"@, "updated_at"@, "ALTER TABLE levels ADD COLUMN updated_at TEXT NOT NULL DEFAULT ''"@),
                ("words"@, "ipa"@, "ALTER TABLE words ADD COLUMN ipa TEXT NOT NULL DEFAULT ''"@),
                ("words"@, "uk_ipa"@, "ALTER TABLE words ADD COLUMN uk_ipa TEXT NOT NULL DEFAULT ''"@),
                ("words"@, "us_ipa"@, "ALTER TABLE words ADD COLUMN us_ipa TEXT NOT NULL DEFAULT ''"@),
                ("words"@, "popularity"@, "ALTER TABLE words ADD COLUMN popularity INTEGER NOT NULL DEFAULT 0"@),
                ("words"@, "parent_id"@, "ALTER TABLE words ADD COLUMN parent_id TEXT"@),
                ("words_units"@, "custom"@, "ALTER TABLE words_units ADD COLUMN custom INTEGER NOT NULL DEFAULT 0"@),
                ("lessons_words"@, "word_reads_per_round"@, "ALTER TABLE lessons_words ADD COLUMN word_reads_per_round INTEGER NOT NULL DEFAULT 0"@),
                ("lessons_words"@, "word_pause_time"@, "ALTER TABLE lessons_words ADD COLUMN word_pause_time INTEGER NOT NULL DEFAULT 0"@),
            ];
            forall|k: int|
                0 <= k < used.len() && !has_column_spec(existing, #[trigger] used[k].0, used[k].1)
                    ==> schema_plan_spec(existing).contains((used[k].2, migrate_failure(used[k].0, used[k].1)))
        }),
        !has_column_spec(existing, "levels_code"@, "code"@) ==> schema_plan_spec(existing).contains(
            (LEVEL_CODE_COLUMN@, migrate_failure("levels_code"@, "code"@)),
        ),
        has_column_spec(existing, "notes"@, "id"@) && !has_column_spec(existing, "notes"@, "unit_id"@)
            ==> schema_plan_spec(existing).contains((NOTES_UNIT_COLUMN@, migrate_failure("notes"@, "unit_id"@))),
{
    let used: Seq<(Seq<char>, Seq<char>, Seq<char>)> = seq![
                ("curriculums"@, "link_image"@, "ALTER TABLE curriculums ADD COLUMN link_image TEXT NOT NULL DEFAULT ''"@),
                ("curriculums"@, "level_id"@, "ALTER TABLE curriculums ADD COLUMN level_id TEXT NOT NULL DEFAULT ''"@),
                ("books"@, "level_id"@, "ALTER TABLE books ADD COLUMN level_id TEXT NOT NULL DEFAULT ''"@),
                ("units"@, "level_id"@, "ALTER TABLE units ADD COLUMN level_id TEXT NOT NULL DEFAULT ''"@),
                ("lessons"@, "curriculum_id"@, "ALTER TABLE lessons ADD COLUMN curriculum_id TEXT NOT NULL DEFAULT ''"@),
                ("lessons"@, "order"@, "ALTER TABLE lessons ADD COLUMN \"order\" INTEGER NOT NULL DEFAULT 0"@),
                ("lessons"@, "category"@, "ALTER TABLE lessons ADD COLUMN category TEXT NOT NULL DEFAULT ''"@),
                ("lessons"@, "duration"@, "ALTER TABLE lessons ADD COLUMN duration INTEGER NOT NULL DEFAULT 0"@),
                ("lessons"@, "description"@, "ALTER TABLE lessons ADD COLUMN description TEXT NOT NULL DEFAULT ''"@),
                ("lessons"@, "deleted_at"@, "ALTER TABLE lessons ADD COLUMN deleted_at TEXT"@),
            ] + seq![
                ("levels"@, "description"@, "ALTER TABLE levels ADD COLUMN description TEXT NOT NULL DEFAULT ''"@),
                ("levels"@, "order_index"@, "ALTER TABLE levels ADD COLUMN order_index INTEGER NOT NULL DEFAULT 0"@),
                ("levels"@, "category"@, "ALTER TABLE levels ADD COLUMN category TEXT NOT NULL DEFAULT ''"@),
                ("levels"@, "created_at"@, "ALTER TABLE levels ADD COLUMN created_at TEXT NOT NULL DEFAULT ''"@),
                ("levels"@, "updated_at"@, "ALTER TABLE levels ADD COLUMN updated_at TEXT NOT NULL DEFAULT ''"@),
                ("words"@, "ipa"@, "ALTER TABLE words ADD COLUMN ipa TEXT NOT NULL DEFAULT ''"@),
                ("words"@, "uk_ipa"@, "ALTER TABLE words ADD COLUMN uk_ipa TEXT NOT NULL DEFAULT ''"@),
                ("words"@, "us_ipa"@, "ALTER TABLE words ADD COLUMN us_ipa TEXT NOT NULL DEFAULT ''"@),
                ("words"@, "popularity"@, "ALTER TABLE words ADD COLUMN popularity INTEGER NOT NULL DEFAULT 0"@),
                ("words"@, "parent_id"@, "ALTER TABLE words ADD COLUMN parent_id TEXT"@),
                ("words_units"@, "custom"@, "ALTER TABLE words_units ADD COLUMN custom INTEGER NOT NULL DEFAULT 0"@),
                ("lessons_words"@, "word_reads_per_round"@, "ALTER TABLE lessons_words ADD COLUMN word_reads_per_round INTEGER NOT NULL DEFAULT 0"@),
                ("lessons_words"@, "word_pause_time"@, "ALTER TABLE lessons_words ADD COLUMN word_pause_time INTEGER NOT NULL DEFAULT 0"@),
            ];
    assert(used =~= early_columns() + late_columns());
    let plan = schema_plan_spec(existing);
    let a = column_steps_spec(existing, early_columns());
    let b = column_steps_spec(existing, late_columns());
    let code_steps = if has_column_spec(existing, "levels_code"@, "code"@) {
        seq![]
    } else if has_column_spec(existing, "levels_code"@, "name"@) {
        seq![
            (LEVEL_CODE_COLUMN@, migrate_failure("levels_code"@, "code"@)),
            (LEVEL_CODE_BACKFILL@, "failed to backfill levels_code.code"@),
        ]
    } else {
        seq![(LEVEL_CODE_COLUMN@, migrate_failure("levels_code"@, "code"@))]
    };
    let note_steps = if has_column_spec(existing, "notes"@, "id"@) && !has_column_spec(existing, "notes"@, "unit_id"@) {
        seq![(NOTES_UNIT_COLUMN@, migrate_failure("notes"@, "unit_id"@))]
    } else {
        seq![]
    };
    let tail = seq![(WORDS_IPA_BACKFILL@, "failed to backfill words ipa fields"@)];
    assert(plan == a + code_steps + b + tail + note_steps);
    assert forall|k: int|
        0 <= k < used.len() && !has_column_spec(existing, #[trigger] used[k].0, used[k].1)
            implies plan.contains((used[k].2, migrate_failure(used[k].0, used[k].1))) by {
        let e = (used[k].2, migrate_failure(used[k].0, used[k].1));
        if k < early_columns().len() {
            assert(used[k] == early_columns()[k]);
            lemma_column_step_present(existing, early_columns(), k);
            let j = choose|j: int| 0 <= j < a.len() && a[j] == e;
            assert(plan[j] == e);
        } else {
            let m = k - early_columns().len();
            assert(used[k] == late_columns()[m]);
            lemma_column_step_present(existing, late_columns(), m);
            let j = choose|j: int| 0 <= j < b.len() && b[j] == e;
            assert(plan[a.len() + code_steps.len() + j] == e);
        }
    }
    if !has_column_spec(existing, "levels_code"@, "code"@) {
        assert(plan[a.len() as int] == (LEVEL_CODE_COLUMN@, migrate_failure("levels_code"@, "code"@)));
    }
    if has_column_spec(existing, "notes"@, "id"@) && !has_column_spec(existing, "notes"@, "unit_id"@) {
        assert(plan[plan.len() - 1] == (NOTES_UNIT_COLUMN@, migrate_failure("notes"@, "unit_id"@)));
    }
}

} // verus!
