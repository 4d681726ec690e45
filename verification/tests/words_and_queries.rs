use vocab_lessons::queries::{
    build_get_words_query, curriculum_page_query, curriculum_paging_fits, lesson_list_query,
    lesson_paging_fits, like_pattern, sort_column,
    sort_direction, validate_unit_ids, SqlValue, CURRICULUM_PAGE_BASE, CURRICULUM_PAGE_END,
    CURRICULUM_SEARCH_FILTER, LESSON_LIST_HEAD, LESSON_LIST_TAIL, WORDS_QUERY_HEAD,
    WORDS_QUERY_TAIL,
};
use vocab_lessons::words::normalize_word_to_filename;

#[test]
fn file_names_of_words() {
    assert_eq!(normalize_word_to_filename("Hello World"), "hello-world");
    assert_eq!(normalize_word_to_filename("don't"), "dont");
    assert_eq!(normalize_word_to_filename("Ice-Cream 2"), "ice-cream-2");
    assert_eq!(normalize_word_to_filename("café"), "caf");
    assert_eq!(normalize_word_to_filename("!!!"), "");
    assert_eq!(normalize_word_to_filename(""), "");
}

#[test]
fn file_names_follow_unicode_lowercase() {
    // the Kelvin sign lowercases to an ASCII `k`
    assert_eq!(normalize_word_to_filename("\u{212A}ELVIN"), "kelvin");
    assert_eq!(normalize_word_to_filename("ÉCOLE"), "cole");
}

#[test]
fn normalizing_twice_is_normalizing_once() {
    for w in ["Hello World", "A  B", "x_y z", "Ünïcode Wörd", "--a--", "ΑΒΓ abc"] {
        let once = normalize_word_to_filename(w);
        assert_eq!(normalize_word_to_filename(&once), once);
        assert!(once.chars().all(|c| c.is_ascii_lowercase() || c.is_ascii_digit() || c == '-'));
    }
}

#[test]
fn unit_ids_must_not_be_empty() {
    assert_eq!(validate_unit_ids(&vec![]), Err("unit_ids is empty".to_string()));
    assert_eq!(validate_unit_ids(&vec!["u1".to_string()]), Ok(()));
}

#[test]
fn words_query_has_one_placeholder_per_unit() {
    let q = build_get_words_query(&vec!["a".into(), "b".into(), "c".into()]);
    assert_eq!(q, format!("{}?,?,?{}", WORDS_QUERY_HEAD, WORDS_QUERY_TAIL));
    assert!(q.contains("WHERE u.id IN (?,?,?)"));
    let one = build_get_words_query(&vec!["a".into()]);
    assert!(one.contains("WHERE u.id IN (?)"));
    let none = build_get_words_query(&vec![]);
    assert!(none.contains("WHERE u.id IN ()"));
}

#[test]
fn search_patterns_are_trimmed_and_wrapped() {
    assert_eq!(like_pattern("  cat "), "%cat%");
    assert_eq!(like_pattern(""), "%%");
}

#[test]
fn curriculum_paging_defaults() {
    let q = curriculum_page_query(None, None, &None);
    assert_eq!((q.page, q.limit, q.offset), (1, 20, 0));
    assert!(q.search_pattern.is_none());
    assert_eq!(q.sql, format!("{}{}", CURRICULUM_PAGE_BASE, CURRICULUM_PAGE_END));
    assert!(matches!(q.params.as_slice(), [SqlValue::Integer(20), SqlValue::Integer(0)]));
}

#[test]
fn curriculum_paging_with_search() {
    let q = curriculum_page_query(Some(3), Some(0), &Some(" Go ".to_string()));
    assert_eq!((q.page, q.limit, q.offset), (3, 1, 2));
    assert_eq!(q.search_pattern.as_deref(), Some("%Go%"));
    assert_eq!(
        q.sql,
        format!("{}{}{}", CURRICULUM_PAGE_BASE, CURRICULUM_SEARCH_FILTER, CURRICULUM_PAGE_END)
    );
    match q.params.as_slice() {
        [SqlValue::Text(a), SqlValue::Text(b), SqlValue::Integer(1), SqlValue::Integer(2)] => {
            assert_eq!(a, "%Go%");
            assert_eq!(b, "%Go%");
        }
        other => panic!("unexpected params {other:?}"),
    }
    let q = curriculum_page_query(Some(0), Some(50), &None);
    assert_eq!((q.page, q.limit, q.offset), (1, 50, 0));
}

#[test]
fn lesson_list_sorting_is_whitelisted() {
    assert_eq!(sort_column(&Some("name".into())), "name");
    assert_eq!(sort_column(&Some("order".into())), "\"order\"");
    assert_eq!(sort_column(&Some("progress".into())), "progress");
    assert_eq!(sort_column(&Some("duration".into())), "duration");
    assert_eq!(sort_column(&Some("created_at".into())), "created_at");
    assert_eq!(sort_column(&Some("name; DROP TABLE lessons".into())), "created_at");
    assert_eq!(sort_column(&None), "created_at");
    assert_eq!(sort_direction(&Some("asc".into())), "ASC");
    assert_eq!(sort_direction(&Some("ASC".into())), "DESC");
    assert_eq!(sort_direction(&None), "DESC");
}

#[test]
fn lesson_list_paging() {
    let q = lesson_list_query(" verbs ", 0, 0, &Some("name".into()), &Some("asc".into()));
    assert_eq!((q.page, q.limit, q.offset), (1, 10, 0));
    assert_eq!(q.search_value, "%verbs%");
    assert_eq!(q.sql, format!("{}name ASC{}", LESSON_LIST_HEAD, LESSON_LIST_TAIL));
    let q = lesson_list_query("", 25, 3, &None, &None);
    assert_eq!((q.page, q.limit, q.offset), (3, 25, 50));
    assert_eq!(q.sql, format!("{}created_at DESC{}", LESSON_LIST_HEAD, LESSON_LIST_TAIL));
    let q = lesson_list_query("", -4, -1, &None, &Some("desc".into()));
    assert_eq!((q.page, q.limit, q.offset), (1, 10, 0));
}

#[test]
fn paging_that_overflows_is_refused() {
    assert!(curriculum_paging_fits(None, None));
    assert!(!curriculum_paging_fits(Some(u32::MAX), Some(u32::MAX)));
    assert!(curriculum_paging_fits(Some(u32::MAX), Some(u32::MAX / 2)));
    assert!(lesson_paging_fits(0, 0));
    assert!(lesson_paging_fits(10, 3));
    assert!(!lesson_paging_fits(i64::MAX, 3));
    assert!(lesson_paging_fits(i64::MAX, 2));
    assert!(!lesson_paging_fits(2, i64::MAX));
}

#[test]
fn ascii_file_names_are_lowercased_and_filtered() {
    assert_eq!(normalize_word_to_filename("Hello World!"), "hello-world");
    assert_eq!(normalize_word_to_filename("Don't Stop"), "dont-stop");
    assert_eq!(normalize_word_to_filename("ice-cream 2"), "ice-cream-2");
}

#[test]
fn words_query_has_one_mark_per_id_and_no_id_text() {
    let ids = vec!["a'); DROP TABLE words; --".to_string(), "?".to_string(), "u3".to_string()];
    let q = build_get_words_query(&ids);
    assert_eq!(q.matches('?').count(), 3);
    assert!(!q.contains("DROP"));
    let others = vec!["x".to_string(), "y".to_string(), "z".to_string()];
    assert_eq!(build_get_words_query(&others), q);
}
