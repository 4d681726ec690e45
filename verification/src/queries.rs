use vstd::prelude::*;

use crate::text::{concat3, opt_str_is, owned, trim, trim_spec};

verus! {

// ---------------------------------------------------------------------------
// Words of units
// ---------------------------------------------------------------------------

/// The text of the words-by-units query before its list of placeholders.
pub const WORDS_QUERY_HEAD: &'static str = "\n        SELECT \n            u.id,\n            u.title,\n            u.\"order\",\n\n            w.id,\n            w.word,\n            w.meaning,\n            COALESCE(NULLIF(w.ipa, ''), NULLIF(w.uk_ipa, ''), NULLIF(w.us_ipa, ''), NULLIF(w.ipa_uk, ''), NULLIF(w.ipa_us, '')) AS ipa,\n            w.popularity,\n            wu.custom,\n            w.parent_id,\n\n            (\n                SELECT COUNT(*) \n                FROM words lw2 \n                WHERE lw2.parent_id = w.id\n            ) as children_count\n\n        FROM units u\n        LEFT JOIN words_units wu ON wu.unit_id = u.id\n        LEFT JOIN words w ON w.id = wu.word_id\n\n        WHERE u.id IN (";

/// The text of the words-by-units query after its list of placeholders.
pub const WORDS_QUERY_TAIL: &'static str = ")\n        ";

/// `n` question marks separated by commas.
pub open spec fn placeholders(n: nat) -> Seq<char>
    decreases n,
{
    if n == 0 {
        seq![]
    } else if n == 1 {
        seq!['?']
    } else {
        placeholders((n - 1) as nat) + seq![',', '?']
    }
}

/// How many times `c` occurs among the first `k` characters of `s`.
pub open spec fn occurrences_upto(s: Seq<char>, c: char, k: nat) -> nat
    decreases k,
{
    if k == 0 {
        0
    } else {
        occurrences_upto(s, c, (k - 1) as nat) + if s[k - 1] == c {
            1nat
        } else {
            0nat
        }
    }
}

/// How many times `c` occurs in `s`.
pub open spec fn occurrences(s: Seq<char>, c: char) -> nat {
    occurrences_upto(s, c, s.len())
}

proof fn lemma_occurrences_prefix(a: Seq<char>, b: Seq<char>, c: char, k: nat)
    requires
        k <= a.len(),
    ensures
        occurrences_upto(a + b, c, k) == occurrences_upto(a, c, k),
    decreases k,
{
    if k > 0 {
        lemma_occurrences_prefix(a, b, c, (k - 1) as nat);
    }
}

proof fn lemma_occurrences_suffix(a: Seq<char>, b: Seq<char>, c: char, m: nat)
    requires
        m <= b.len(),
    ensures
        occurrences_upto(a + b, c, a.len() + m) == occurrences(a, c) + occurrences_upto(b, c, m),
    decreases m,
{
    if m == 0 {
        lemma_occurrences_prefix(a, b, c, a.len());
    } else {
        lemma_occurrences_suffix(a, b, c, (m - 1) as nat);
        assert((a + b)[a.len() + m - 1] == b[m - 1]);
    }
}

/// Occurrences add up over a concatenation.
pub proof fn lemma_occurrences_concat(a: Seq<char>, b: Seq<char>, c: char)
    ensures
        occurrences(a + b, c) == occurrences(a, c) + occurrences(b, c),
{
    lemma_occurrences_suffix(a, b, c, b.len());
}

proof fn lemma_placeholder_count(n: nat)
    ensures
        occurrences(placeholders(n), '?') == n,
    decreases n,
{
    if n == 1 {
        reveal_with_fuel(occurrences_upto, 2);
    } else if n > 1 {
        lemma_placeholder_count((n - 1) as nat);
        lemma_occurrences_concat(placeholders((n - 1) as nat), seq![',', '?'], '?');
        reveal_with_fuel(occurrences_upto, 3);
    }
}

/// Neither end of the words query holds a `?`. (Verus learns what a string
/// literal holds only from the literal itself, so the two texts are written
/// out again here.)
#[verifier::rlimit(100)]
proof fn lemma_words_query_ends_unmarked()
    ensures
        occurrences(WORDS_QUERY_HEAD@, '?') == 0,
        occurrences(WORDS_QUERY_TAIL@, '?') == 0,
{
    reveal_strlit(")\n        ");
    reveal_strlit("\n        SELECT \n            u.id,\n            u.title,\n            u.\"order\",\n\n            w.id,\n            w.word,\n            w.meaning,\n            COALESCE(NULLIF(w.ipa, ''), NULLIF(w.uk_ipa, ''), NULLIF(w.us_ipa, ''), NULLIF(w.ipa_uk, ''), NULLIF(w.ipa_us, '')) AS ipa,\n            w.popularity,\n            wu.custom,\n            w.parent_id,\n\n            (\n                SELECT COUNT(*) \n                FROM words lw2 \n                WHERE lw2.parent_id = w.id\n            ) as children_count\n\n        FROM units u\n        LEFT JOIN words_units wu ON wu.unit_id = u.id\n        LEFT JOIN words w ON w.id = wu.word_id\n\n        WHERE u.id IN (");
    reveal_with_fuel(occurrences_upto, 41);
    assert(occurrences_upto(WORDS_QUERY_TAIL@, '?', 10) == 0);
    assert(occurrences_upto(WORDS_QUERY_HEAD@, '?', 40) == 0);
    assert(occurrences_upto(WORDS_QUERY_HEAD@, '?', 80) == 0);
    assert(occurrences_upto(WORDS_QUERY_HEAD@, '?', 120) == 0);
    assert(occurrences_upto(WORDS_QUERY_HEAD@, '?', 160) == 0);
    assert(occurrences_upto(WORDS_QUERY_HEAD@, '?', 200) == 0);
    assert(occurrences_upto(WORDS_QUERY_HEAD@, '?', 240) == 0);
    assert(occurrences_upto(WORDS_QUERY_HEAD@, '?', 280) == 0);
    assert(occurrences_upto(WORDS_QUERY_HEAD@, '?', 320) == 0);
    assert(occurrences_upto(WORDS_QUERY_HEAD@, '?', 360) == 0);
    assert(occurrences_upto(WORDS_QUERY_HEAD@, '?', 400) == 0);
    assert(occurrences_upto(WORDS_QUERY_HEAD@, '?', 440) == 0);
    assert(occurrences_upto(WORDS_QUERY_HEAD@, '?', 480) == 0);
    assert(occurrences_upto(WORDS_QUERY_HEAD@, '?', 520) == 0);
    assert(occurrences_upto(WORDS_QUERY_HEAD@, '?', 560) == 0);
    assert(occurrences_upto(WORDS_QUERY_HEAD@, '?', 600) == 0);
    assert(occurrences_upto(WORDS_QUERY_HEAD@, '?', 640) == 0);
    assert(occurrences_upto(WORDS_QUERY_HEAD@, '?', 653) == 0);
}

/// The words query holds exactly one `?` per unit id, and its text depends on
/// the number of ids alone: no id ever enters it.
pub proof fn lemma_words_query_placeholders(n: nat)
    ensures
        occurrences(WORDS_QUERY_HEAD@ + placeholders(n) + WORDS_QUERY_TAIL@, '?') == n,
{
    lemma_words_query_ends_unmarked();
    lemma_placeholder_count(n);
    lemma_occurrences_concat(WORDS_QUERY_HEAD@, placeholders(n), '?');
    lemma_occurrences_concat(WORDS_QUERY_HEAD@ + placeholders(n), WORDS_QUERY_TAIL@, '?');
}

/// The query that lists the units with the given ids, each joined with its
/// words: one `?` placeholder per unit id.
pub fn build_get_words_query(unit_ids: &Vec<String>) -> (r: String)
    ensures
        r@ == WORDS_QUERY_HEAD@ + placeholders(unit_ids.len() as nat) + WORDS_QUERY_TAIL@,
        occurrences(r@, '?') == unit_ids.len(),
{
    proof {
        lemma_words_query_placeholders(unit_ids.len() as nat);
    }
    let n = unit_ids.len();
    let mut marks = String::new();
    let mut i: usize = 0;
    while i < n
        invariant
            i <= n,
            marks@ == placeholders(i as nat),
        decreases n - i,
    {
        if i > 0 {
            marks.push(',');
        }
        marks.push('?');
        i = i + 1;
        assert(marks@ =~= placeholders(i as nat));
    }
    concat3(WORDS_QUERY_HEAD, marks.as_str(), WORDS_QUERY_TAIL)
}

/// The unit list of a words-by-units request must not be empty.
pub fn validate_unit_ids(unit_ids: &Vec<String>) -> (r: Result<(), String>)
    ensures
        r is Err <==> unit_ids.len() == 0,
        r matches Err(e) ==> e@ == "unit_ids is empty"@,
{
    if unit_ids.len() == 0 {
        return Err(owned("unit_ids is empty"));
    }
    Ok(())
}

// ---------------------------------------------------------------------------
// Search patterns
// ---------------------------------------------------------------------------

/// The `LIKE` pattern that matches any text containing the trimmed search text.
pub open spec fn like_pattern_spec(search: Seq<char>) -> Seq<char> {
    seq!['%'] + trim_spec(search) + seq!['%']
}

pub fn like_pattern(search: &str) -> (r: String)
    ensures
        r@ == like_pattern_spec(search@),
{
    let t = trim(search);
    proof {
        reveal_strlit("%");
    }
    let r = concat3("%", t.as_str(), "%");
    assert(r@ =~= like_pattern_spec(search@));
    r
}

// ---------------------------------------------------------------------------
// Curriculum pages
// ---------------------------------------------------------------------------

/// A value bound to a query parameter.
#[derive(Debug)]
pub enum SqlValue {
    Integer(i64),
    Text(String),
}

/// The base of the curriculum page query.
pub const CURRICULUM_PAGE_BASE: &'static str = "SELECT c.id, c.name, c.description, c.created_at, c.updated_at, c.link_image, l.id, l.name, lc.code, (SELECT COUNT(*) FROM curriculum_units cu WHERE cu.curriculum_id = c.id) AS unit_count FROM curriculums c LEFT JOIN levels l ON l.id = c.level_id LEFT JOIN levels_code lc ON lc.id = l.code";

/// What narrows the curriculum page query to student books matching a search.
pub const CURRICULUM_SEARCH_FILTER: &'static str = " WHERE c.type = 'sb' AND (c.name LIKE ? OR c.description LIKE ?)";

pub const CURRICULUM_PAGE_END: &'static str = " ORDER BY c.name LIMIT ? OFFSET ?";

/// The page number asked for, at least 1 (1 when none is given).
pub open spec fn curriculum_page_spec(page: Option<u32>) -> int {
    match page {
        Some(p) => if p >= 1 { p as int } else { 1 },
        None => 1,
    }
}

/// The page size asked for, at least 1 (20 when none is given).
pub open spec fn curriculum_limit_spec(limit: Option<u32>) -> int {
    match limit {
        Some(l) => if l >= 1 { l as int } else { 1 },
        None => 20,
    }
}

/// How a page of curriculums is fetched.
pub struct CurriculumPageQuery {
    pub page: i64,
    pub limit: i64,
    pub offset: i64,
    /// The `LIKE` pattern of the search, if one was given.
    pub search_pattern: Option<String>,
    /// The query for the rows of the page.
    pub sql: String,
    /// The values bound to the placeholders of `sql`, in order.
    pub params: Vec<SqlValue>,
}

/// Whether the paging of a curriculum request stays within `i64`.
pub open spec fn curriculum_offset_fits(page: Option<u32>, limit: Option<u32>) -> bool {
    (curriculum_page_spec(page) - 1) * curriculum_limit_spec(limit) <= i64::MAX
}

/// Tells whether the paging of a curriculum request stays within `i64`.
pub fn curriculum_paging_fits(page: Option<u32>, limit: Option<u32>) -> (r: bool)
    ensures
        r == curriculum_offset_fits(page, limit),
{
    let page_v: i128 = match page {
        Some(p) => if p >= 1 { p as i128 } else { 1 },
        None => 1,
    };
    let limit_v: i128 = match limit {
        Some(l) => if l >= 1 { l as i128 } else { 1 },
        None => 20,
    };
    assert((page_v - 1) * limit_v <= 0x1_0000_0000i128 * 0x1_0000_0000i128) by (nonlinear_arith)
        requires
            1 <= page_v <= 0x1_0000_0000i128,
            1 <= limit_v <= 0x1_0000_0000i128,
    ;
    assert(0 <= (page_v - 1) * limit_v) by (nonlinear_arith)
        requires
            page_v >= 1,
            limit_v >= 1,
    ;
    (page_v - 1) * limit_v <= 0x7fff_ffff_ffff_ffffi128
}

/// Normalizes the paging of a curriculum request and builds the query for
/// the page: the search (trimmed, as a `LIKE` pattern) narrows the rows to
/// student books whose name or description matches; rows are ordered by name.
pub fn curriculum_page_query(page: Option<u32>, limit: Option<u32>, search_query: &Option<String>) -> (r: CurriculumPageQuery)
    requires
        curriculum_offset_fits(page, limit),
    ensures
        r.page == curriculum_page_spec(page),
        r.limit == curriculum_limit_spec(limit),
        r.offset == (r.page - 1) * r.limit,
        r.offset >= 0,
        match search_query {
            Some(s) => r.search_pattern is Some && r.search_pattern->0@ == like_pattern_spec(s@),
            None => r.search_pattern is None,
        },
        match r.search_pattern {
            Some(p) => {
                &&& r.sql@ == CURRICULUM_PAGE_BASE@ + CURRICULUM_SEARCH_FILTER@ + CURRICULUM_PAGE_END@
                &&& r.params@.len() == 4
                &&& r.params@[0] == SqlValue::Text(p)
                &&& r.params@[1] == SqlValue::Text(p)
                &&& r.params@[2] == SqlValue::Integer(r.limit)
                &&& r.params@[3] == SqlValue::Integer(r.offset)
            },
            None => {
                &&& r.sql@ == CURRICULUM_PAGE_BASE@ + CURRICULUM_PAGE_END@
                &&& r.params@ == seq![SqlValue::Integer(r.limit), SqlValue::Integer(r.offset)]
            },
        },
{
    let page_v: i64 = match page {
        Some(p) => if p >= 1 { p as i64 } else { 1 },
        None => 1,
    };
    let limit_v: i64 = match limit {
        Some(l) => if l >= 1 { l as i64 } else { 1 },
        None => 20,
    };
    assert(0 <= (page_v - 1) * limit_v) by (nonlinear_arith)
        requires
            page_v >= 1,
            limit_v >= 1,
    ;
    let offset = (page_v - 1) * limit_v;
    let pattern: Option<String> = match search_query {
        Some(s) => Some(like_pattern(s.as_str())),
        None => None,
    };
    let mut params: Vec<SqlValue> = Vec::new();
    let sql = match &pattern {
        Some(p) => {
            params.push(SqlValue::Text(p.clone()));
            params.push(SqlValue::Text(p.clone()));
            concat3(CURRICULUM_PAGE_BASE, CURRICULUM_SEARCH_FILTER, CURRICULUM_PAGE_END)
        },
        None => {
            let mut q = owned(CURRICULUM_PAGE_BASE);
            q.append(CURRICULUM_PAGE_END);
            q
        },
    };
    params.push(SqlValue::Integer(limit_v));
    params.push(SqlValue::Integer(offset));
    CurriculumPageQuery { page: page_v, limit: limit_v, offset, search_pattern: pattern, sql, params }
}

// ---------------------------------------------------------------------------
// Lesson lists
// ---------------------------------------------------------------------------

pub const LESSON_LIST_HEAD: &'static str = "\n        SELECT \n            id,\n            name,\n            \"order\",\n            duration,\n            progress,\n            created_at,\n            updated_at,\n            description,\n            (SELECT COUNT(*) FROM lessons_words WHERE lessons_words.lesson_id = lessons.id) AS words_count,\n            category\n        FROM lessons\n        WHERE deleted_at IS NULL\n          AND name LIKE ?1\n        ORDER BY ";

pub const LESSON_LIST_TAIL: &'static str = "\n        LIMIT ?2 OFFSET ?3\n        ";

/// The column a lesson list is sorted by: one of a fixed set, so that no
/// text of the request reaches the query; `created_at` by default.
pub open spec fn sort_column_spec(sort_by: Option<String>) -> Seq<char> {
    match sort_by {
        Some(s) => if s@ == "name"@ {
            "name"@
        } else if s@ == "created_at"@ {
            "created_at"@
        } else if s@ == "order"@ {
            "\"order\""@
        } else if s@ == "progress"@ {
            "progress"@
        } else if s@ == "duration"@ {
            "duration"@
        } else {
            "created_at"@
        },
        None => "created_at"@,
    }
}

/// `ASC` when ascending order is asked for, `DESC` otherwise.
pub open spec fn sort_direction_spec(sort_order: Option<String>) -> Seq<char> {
    match sort_order {
        Some(s) => if s@ == "asc"@ {
            "ASC"@
        } else {
            "DESC"@
        },
        None => "DESC"@,
    }
}

pub fn sort_column(sort_by: &Option<String>) -> (r: &'static str)
    ensures
        r@ == sort_column_spec(*sort_by),
{
    if opt_str_is(sort_by, "name") {
        "name"
    } else if opt_str_is(sort_by, "created_at") {
        "created_at"
    } else if opt_str_is(sort_by, "order") {
        "\"order\""
    } else if opt_str_is(sort_by, "progress") {
        "progress"
    } else if opt_str_is(sort_by, "duration") {
        "duration"
    } else {
        "created_at"
    }
}

pub fn sort_direction(sort_order: &Option<String>) -> (r: &'static str)
    ensures
        r@ == sort_direction_spec(*sort_order),
{
    if opt_str_is(sort_order, "asc") {
        "ASC"
    } else {
        "DESC"
    }
}

/// The page size of a lesson list: 10 unless a positive one is given.
pub open spec fn lesson_limit_spec(limit: i64) -> int {
    if limit <= 0 { 10 } else { limit as int }
}

/// The page number of a lesson list: 1 unless a positive one is given.
pub open spec fn lesson_page_spec(page: i64) -> int {
    if page <= 0 { 1 } else { page as int }
}

/// How a page of the lesson list is fetched.
pub struct LessonListQuery {
    pub page: i64,
    pub limit: i64,
    pub offset: i64,
    /// Bound to `?1`: matches names that contain the trimmed search text.
    pub search_value: String,
    /// The query for the rows of the page; `?2` is the limit, `?3` the offset.
    pub sql: String,
}

pub open spec fn lesson_offset_fits(limit: i64, page: i64) -> bool {
    (lesson_page_spec(page) - 1) * lesson_limit_spec(limit) <= i64::MAX
}

/// Tells whether the paging of a lesson list request stays within `i64`.
pub fn lesson_paging_fits(limit: i64, page: i64) -> (r: bool)
    ensures
        r == lesson_offset_fits(limit, page),
{
    let limit_v: i128 = if limit <= 0 { 10 } else { limit as i128 };
    let page_v: i128 = if page <= 0 { 1 } else { page as i128 };
    assert((page_v - 1) * limit_v <= 0x8000_0000_0000_0000i128 * 0x8000_0000_0000_0000i128) by (nonlinear_arith)
        requires
            1 <= page_v <= 0x8000_0000_0000_0000i128,
            1 <= limit_v <= 0x8000_0000_0000_0000i128,
    ;
    assert(0 <= (page_v - 1) * limit_v) by (nonlinear_arith)
        requires
            page_v >= 1,
            limit_v >= 1,
    ;
    (page_v - 1) * limit_v <= 0x7fff_ffff_ffff_ffffi128
}

/// Normalizes the paging of a lesson list request and builds its query,
/// sorted by a whitelisted column in the asked direction.
pub fn lesson_list_query(search: &str, limit: i64, page: i64, sort_by: &Option<String>, sort_order: &Option<String>) -> (r: LessonListQuery)
    requires
        lesson_offset_fits(limit, page),
    ensures
        r.limit == lesson_limit_spec(limit),
        r.page == lesson_page_spec(page),
        r.offset == (r.page - 1) * r.limit,
        r.offset >= 0,
        r.search_value@ == like_pattern_spec(search@),
        r.sql@ == LESSON_LIST_HEAD@ + sort_column_spec(*sort_by) + seq![' '] + sort_direction_spec(
            *sort_order,
        ) + LESSON_LIST_TAIL@,
{
    let limit_v: i64 = if limit <= 0 { 10 } else { limit };
    let page_v: i64 = if page <= 0 { 1 } else { page };
    assert(0 <= (page_v - 1) * limit_v) by (nonlinear_arith)
        requires
            page_v >= 1,
            limit_v >= 1,
    ;
    let offset = (page_v - 1) * limit_v;
    let search_value = like_pattern(search);
    let column = sort_column(sort_by);
    let direction = sort_direction(sort_order);
    let mut sql = concat3(LESSON_LIST_HEAD, column, " ");
    sql.append(direction);
    sql.append(LESSON_LIST_TAIL);
    proof {
        reveal_strlit(" ");
    }
    assert(sql@ =~= LESSON_LIST_HEAD@ + sort_column_spec(*sort_by) + seq![' '] + sort_direction_spec(
        *sort_order,
    ) + LESSON_LIST_TAIL@);
    LessonListQuery { page: page_v, limit: limit_v, offset, search_value, sql }
}

} // verus!
