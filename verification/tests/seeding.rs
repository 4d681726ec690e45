use vocab_lessons::keys::{count_distinct, pair_key, same_keys};
use vocab_lessons::seed::{
    check_seed_counts, curriculum_level_updates, expected_counts, needs_reseed, seed_word_ipa,
    CatalogueKeys, SeedBook, SeedCurriculum, SeedCurriculumUnit, SeedData, SeedLevelCode,
    SeedUnit, SeedWord, SeedWordUnit, TableCount,
};

fn s(x: &str) -> String {
    x.to_string()
}

fn sample_seed() -> SeedData {
    SeedData {
        curriculums: vec![
            SeedCurriculum {
                id: s("c1"),
                name: s("Start"),
                description: None,
                created_at: s("t"),
                updated_at: s("t"),
                level_id: Some(s("L1")),
                student_book_id: None,
                type_: Some(s("sb")),
                work_book_id: None,
                link_image: s(""),
            },
            SeedCurriculum {
                id: s("c2"),
                name: s("Next"),
                description: Some(s("d")),
                created_at: s("t"),
                updated_at: s("t"),
                level_id: Some(s("")),
                student_book_id: None,
                type_: None,
                work_book_id: None,
                link_image: s(""),
            },
        ],
        books: vec![SeedBook {
            id: s("b1"),
            name: s("Book"),
            type_: s("sb"),
            level_id: s("L2"),
            curriculum_id: s("c1"),
            created_at: s("t"),
            updated_at: s("t"),
        }],
        units: vec![
            SeedUnit { id: s("u1"), title: s("U1"), level_id: s(""), book_id: None, created_at: s("t"), updated_at: s("t"), order: 1, link: None },
            SeedUnit { id: s("u1"), title: s("U1 again"), level_id: s("L3"), book_id: None, created_at: s("t"), updated_at: s("t"), order: 1, link: None },
            SeedUnit { id: s("u2"), title: s("U2"), level_id: s("L1"), book_id: None, created_at: s("t"), updated_at: s("t"), order: 2, link: None },
        ],
        lessons: vec![],
        words: vec![SeedWord {
            id: s("w1"),
            word: s("cat"),
            meaning: s("a pet"),
            ipa_uk: None,
            ipa_us: Some(s("kæt")),
            ipa: Some(s("kat")),
            popularity: None,
            parent_id: None,
            created_at: s("t"),
            updated_at: s("t"),
        }],
        words_units: vec![SeedWordUnit { word_id: s("w1"), unit_id: s("u1") }],
        lessons_units: vec![],
        lessons_words: vec![],
        curriculum_units: vec![SeedCurriculumUnit { curriculum_id: s("c1"), unit_id: s("u1") }],
        levels_code: vec![SeedLevelCode { id: 1, code: s("A1") }],
        levels: vec![],
        notes: vec![],
    }
}

fn keys_of(seed: &SeedData) -> CatalogueKeys {
    CatalogueKeys {
        curriculum_ids: seed.curriculums.iter().map(|c| c.id.clone()).collect(),
        level_ids: vec![s("L3"), s("L1"), s("L2"), s("L1")],
        book_ids: seed.books.iter().map(|b| b.id.clone()).collect(),
        unit_ids: vec![s("u2"), s("u1")],
        word_ids: vec![s("w1")],
        lesson_ids: vec![],
        curriculum_unit_pairs: vec![s("c1|u1")],
        word_unit_pairs: vec![s("w1|u1")],
        lesson_unit_pairs: vec![],
        lesson_word_pairs: vec![],
        note_ids: vec![],
    }
}

#[test]
fn a_catalogue_holding_the_seed_is_kept() {
    let seed = sample_seed();
    assert!(!needs_reseed(&seed, &keys_of(&seed)));
}

#[test]
fn any_difference_calls_for_a_reseed() {
    let seed = sample_seed();
    let mut keys = keys_of(&seed);
    keys.note_ids.push(s("n1"));
    assert!(needs_reseed(&seed, &keys));
    let mut keys = keys_of(&seed);
    keys.level_ids = vec![s("L1"), s("L2")];
    assert!(needs_reseed(&seed, &keys));
    let mut keys = keys_of(&seed);
    keys.word_unit_pairs = vec![s("w1|u2")];
    assert!(needs_reseed(&seed, &keys));
    let empty = CatalogueKeys {
        curriculum_ids: vec![],
        level_ids: vec![],
        book_ids: vec![],
        unit_ids: vec![],
        word_ids: vec![],
        lesson_ids: vec![],
        curriculum_unit_pairs: vec![],
        word_unit_pairs: vec![],
        lesson_unit_pairs: vec![],
        lesson_word_pairs: vec![],
        note_ids: vec![],
    };
    assert!(needs_reseed(&seed, &empty));
}

#[test]
fn key_sets_ignore_order_and_repetition() {
    assert!(same_keys(&vec![s("a"), s("b"), s("a")], &vec![s("b"), s("a")]));
    assert!(!same_keys(&vec![s("a")], &vec![s("a"), s("c")]));
    assert!(same_keys(&vec![], &vec![]));
    assert_eq!(count_distinct(&vec![s("a"), s("b"), s("a"), s("c"), s("b")]), 3);
    assert_eq!(count_distinct(&vec![]), 0);
    assert_eq!(pair_key("w1", "u1"), "w1|u1");
}

#[test]
fn expected_counts_count_units_once_per_id() {
    let seed = sample_seed();
    let e = expected_counts(&seed);
    assert_eq!(e.units, 2);
    assert_eq!(e.curriculums, 2);
    assert_eq!(e.words_units, 1);
    assert_eq!(e.levels_code, 1);
    assert_eq!(e.notes, 0);
}

#[test]
fn count_check_reports_each_mismatch() {
    let ok = vec![TableCount { table: s("books"), actual: 3, expected: 3 }];
    assert_eq!(check_seed_counts(&ok), Ok(()));
    let bad = vec![
        TableCount { table: s("curriculums"), actual: 1, expected: 2 },
        TableCount { table: s("books"), actual: 3, expected: 3 },
        TableCount { table: s("units"), actual: -1, expected: 0 },
    ];
    assert_eq!(
        check_seed_counts(&bad),
        Err(s("seed verification failed: curriculums: actual 1, expected 2; units: actual -1, expected 0"))
    );
    assert_eq!(check_seed_counts(&vec![]), Ok(()));
}

#[test]
fn level_backfill_skips_curriculums_without_level() {
    let seed = sample_seed();
    let updates = curriculum_level_updates(&seed.curriculums);
    assert_eq!(updates, vec![(s("c1"), s("L1"))]);
}

#[test]
fn seed_word_transcriptions_fall_back_to_the_general_one() {
    let seed = sample_seed();
    let ipa = seed_word_ipa(&seed.words[0]);
    assert_eq!((ipa.ipa.as_str(), ipa.uk.as_str(), ipa.us.as_str()), ("kat", "kat", "kæt"));
    let mut w = sample_seed().words.remove(0);
    w.ipa = None;
    w.ipa_us = None;
    let ipa = seed_word_ipa(&w);
    assert_eq!((ipa.ipa.as_str(), ipa.uk.as_str(), ipa.us.as_str()), ("", "", ""));
}
