use vocab_lessons::unit_words::{group_words_by_unit, str_le, UnitWithWords, UnitWordRow};

fn row(unit: &str, name: &str, order: i32, word: Option<&str>, custom: Option<i64>) -> UnitWordRow {
    UnitWordRow {
        unit_id: unit.to_string(),
        unit_name: name.to_string(),
        unit_order: order,
        word_id: word.map(|w| format!("id-{w}")),
        word_text: word.map(|w| w.to_string()),
        word_meaning: word.map(|w| format!("meaning of {w}")),
        word_ipa: None,
        word_popularity: Some(0),
        word_custom: custom,
        word_parent_id: None,
        children_count: 0,
    }
}

fn words(g: &UnitWithWords, custom: bool) -> Vec<String> {
    let list = if custom { &g.unit_words.custom } else { &g.unit_words.original };
    list.iter().map(|w| w.word.clone()).collect()
}

#[test]
fn rows_are_grouped_by_unit_and_sorted_by_order_then_name() {
    let rows = vec![
        row("u2", "Unit B", 2, Some("dog"), Some(0)),
        row("u1", "Unit A", 1, Some("cat"), None),
        row("u2", "Unit B", 2, Some("pig"), Some(1)),
        row("u3", "Unit A2", 1, None, None),
        row("u1", "Unit A", 1, Some("cow"), Some(0)),
        row("u2", "Unit B", 2, Some("hen"), Some(0)),
    ];
    let groups = group_words_by_unit(&rows);
    let ids: Vec<&str> = groups.iter().map(|g| g.unit_id.as_str()).collect();
    assert_eq!(ids, vec!["u1", "u3", "u2"]);
    assert_eq!(words(&groups[0], false), vec!["cat", "cow"]);
    assert!(groups[0].unit_words.custom.is_empty());
    assert!(groups[1].unit_words.original.is_empty());
    assert!(groups[1].unit_words.custom.is_empty());
    assert_eq!(words(&groups[2], false), vec!["dog", "hen"]);
    assert_eq!(words(&groups[2], true), vec!["pig"]);
    assert_eq!(groups[2].unit_words.custom[0].id, "id-pig");
    assert_eq!(groups[2].unit_words.custom[0].meaning.as_deref(), Some("meaning of pig"));
}

#[test]
fn a_missing_word_text_reads_as_empty() {
    let mut r = row("u1", "U", 0, Some("x"), None);
    r.word_text = None;
    let groups = group_words_by_unit(&vec![r]);
    assert_eq!(groups.len(), 1);
    assert_eq!(groups[0].unit_words.original[0].word, "");
    assert_eq!(groups[0].unit_words.original[0].id, "id-x");
}

#[test]
fn no_rows_no_groups() {
    assert!(group_words_by_unit(&vec![]).is_empty());
}

#[test]
fn unit_names_compare_like_strings() {
    for (a, b) in [("a", "b"), ("b", "a"), ("a", "a"), ("", "a"), ("ab", "a"), ("Z", "a"), ("é", "z"), ("z", "é")] {
        assert_eq!(str_le(a, b), a <= b, "{a} {b}");
    }
}

#[test]
fn ties_on_order_are_broken_by_name() {
    let rows = vec![
        row("x", "Beta", 5, None, None),
        row("y", "Alpha", 5, None, None),
        row("z", "Alpha", 4, None, None),
    ];
    let groups = group_words_by_unit(&rows);
    let ids: Vec<&str> = groups.iter().map(|g| g.unit_id.as_str()).collect();
    assert_eq!(ids, vec!["z", "y", "x"]);
}
