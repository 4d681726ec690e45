use vstd::prelude::*;

use crate::text::{chars_of, str_eq};

verus! {

// ---------------------------------------------------------------------------
// Rows and groups
// ---------------------------------------------------------------------------

/// One row of the words-by-units query: a unit, and one of its words when it
/// has any (a unit without words gives one row whose word fields are empty).
#[derive(Debug)]
pub struct UnitWordRow {
    pub unit_id: String,
    pub unit_name: String,
    pub unit_order: i32,
    pub word_id: Option<String>,
    pub word_text: Option<String>,
    pub word_meaning: Option<String>,
    pub word_ipa: Option<String>,
    pub word_popularity: Option<i64>,
    pub word_custom: Option<i64>,
    pub word_parent_id: Option<String>,
    pub children_count: i64,
}

/// A word of a unit.
#[derive(Debug)]
pub struct WordItem {
    pub id: String,
    pub word: String,
    pub meaning: Option<String>,
    pub ipa: Option<String>,
    pub parent_id: Option<String>,
    pub children_count: i64,
}

/// The words of a unit: those of the book, and those added by the user.
#[derive(Debug)]
pub struct UnitWords {
    pub original: Vec<WordItem>,
    pub custom: Vec<WordItem>,
}

/// A unit with its words.
#[derive(Debug)]
pub struct UnitWithWords {
    pub unit_id: String,
    pub unit_name: String,
    pub unit_order: i32,
    pub unit_words: UnitWords,
}

/// A word counts as added by the user when its link to the unit is marked custom.
pub open spec fn is_custom_row(r: UnitWordRow) -> bool {
    match r.word_custom {
        Some(c) => c != 0,
        None => false,
    }
}

/// Whether a row carries a word of unit `uid` on the `custom` side.
pub open spec fn row_selected(r: UnitWordRow, uid: Seq<char>, custom: bool) -> bool {
    &&& r.unit_id@ == uid
    &&& r.word_id is Some
    &&& is_custom_row(r) == custom
}

/// The rows that carry words of unit `uid` on the `custom` side, in order.
pub open spec fn selected_rows(rows: Seq<UnitWordRow>, uid: Seq<char>, custom: bool) -> Seq<
    UnitWordRow,
>
    decreases rows.len(),
{
    if rows.len() == 0 {
        seq![]
    } else {
        let prev = selected_rows(rows.drop_last(), uid, custom);
        if row_selected(rows.last(), uid, custom) {
            prev.push(rows.last())
        } else {
            prev
        }
    }
}

/// The word item that a row carries (a missing word text reads as empty).
pub open spec fn item_from_row(w: WordItem, r: UnitWordRow) -> bool {
    &&& r.word_id == Some(w.id)
    &&& w.word@ == match r.word_text {
        Some(t) => t@,
        None => Seq::<char>::empty(),
    }
    &&& w.meaning == r.word_meaning
    &&& w.ipa == r.word_ipa
    &&& w.parent_id == r.word_parent_id
    &&& w.children_count == r.children_count
}

pub open spec fn items_from_rows(ws: Seq<WordItem>, rs: Seq<UnitWordRow>) -> bool {
    &&& ws.len() == rs.len()
    &&& forall|i: int| 0 <= i < ws.len() ==> item_from_row(#[trigger] ws[i], rs[i])
}

/// Row `i` is the first row of unit `uid`.
pub open spec fn heads_unit(rows: Seq<UnitWordRow>, i: int, uid: Seq<char>) -> bool {
    &&& 0 <= i < rows.len()
    &&& rows[i].unit_id@ == uid
    &&& forall|j: int| 0 <= j < i ==> rows[j].unit_id@ != uid
}

/// A group gathers a unit of the rows: its name and order are those of the
/// unit's first row, and its word lists are the words of the unit's rows, in
/// row order, split by whether they were added by the user.
pub open spec fn group_of_rows(rows: Seq<UnitWordRow>, g: UnitWithWords) -> bool {
    &&& exists|i: int|
        #[trigger] heads_unit(rows, i, g.unit_id@) && g.unit_name == rows[i].unit_name
            && g.unit_order == rows[i].unit_order
    &&& items_from_rows(g.unit_words.original@, selected_rows(rows, g.unit_id@, false))
    &&& items_from_rows(g.unit_words.custom@, selected_rows(rows, g.unit_id@, true))
}

// ---------------------------------------------------------------------------
// Ordering of units
// ---------------------------------------------------------------------------

/// Lexicographic order of character sequences by code point, which is the
/// order of `String` (UTF-8 keeps the order of code points).
pub open spec fn lex_le(a: Seq<char>, b: Seq<char>) -> bool
    decreases a.len(),
{
    if a.len() == 0 {
        true
    } else if b.len() == 0 {
        false
    } else if (a[0] as u32) < (b[0] as u32) {
        true
    } else if (a[0] as u32) > (b[0] as u32) {
        false
    } else {
        lex_le(a.drop_first(), b.drop_first())
    }
}

pub proof fn lemma_lex_total(a: Seq<char>, b: Seq<char>)
    ensures
        lex_le(a, b) || lex_le(b, a),
    decreases a.len(),
{
    if a.len() > 0 && b.len() > 0 && a[0] as u32 == b[0] as u32 {
        lemma_lex_total(a.drop_first(), b.drop_first());
    }
}

pub proof fn lemma_lex_trans(a: Seq<char>, b: Seq<char>, c: Seq<char>)
    requires
        lex_le(a, b),
        lex_le(b, c),
    ensures
        lex_le(a, c),
    decreases a.len(),
{
    if a.len() > 0 && b.len() > 0 && c.len() > 0 && a[0] as u32 == b[0] as u32 && b[0] as u32
        == c[0] as u32 {
        lemma_lex_trans(a.drop_first(), b.drop_first(), c.drop_first());
    }
}

/// Units are listed by their order, then by name.
pub open spec fn unit_le(a: UnitWithWords, b: UnitWithWords) -> bool {
    a.unit_order < b.unit_order || (a.unit_order == b.unit_order && lex_le(
        a.unit_name@,
        b.unit_name@,
    ))
}

pub proof fn lemma_unit_total(a: UnitWithWords, b: UnitWithWords)
    ensures
        unit_le(a, b) || unit_le(b, a),
{
    lemma_lex_total(a.unit_name@, b.unit_name@);
}

pub proof fn lemma_unit_trans(a: UnitWithWords, b: UnitWithWords, c: UnitWithWords)
    requires
        unit_le(a, b),
        unit_le(b, c),
    ensures
        unit_le(a, c),
{
    if a.unit_order == b.unit_order && b.unit_order == c.unit_order {
        lemma_lex_trans(a.unit_name@, b.unit_name@, c.unit_name@);
    }
}

/// Code-point lexicographic comparison of two strings.
pub fn str_le(a: &str, b: &str) -> (r: bool)
    ensures
        r == lex_le(a@, b@),
{
    let va = chars_of(a);
    let vb = chars_of(b);
    let mut i: usize = 0;
    assert(a@.skip(0) =~= a@);
    assert(b@.skip(0) =~= b@);
    while i < va.len() && i < vb.len()
        invariant
            va@ == a@,
            vb@ == b@,
            i <= va.len(),
            i <= vb.len(),
            lex_le(a@, b@) == lex_le(a@.skip(i as int), b@.skip(i as int)),
        decreases va.len() - i,
    {
        let x = va[i] as u32;
        let y = vb[i] as u32;
        assert(a@.skip(i as int)[0] == va@[i as int]);
        assert(b@.skip(i as int)[0] == vb@[i as int]);
        if x < y {
            return true;
        }
        if x > y {
            return false;
        }
        assert(a@.skip(i as int).drop_first() =~= a@.skip(i + 1));
        assert(b@.skip(i as int).drop_first() =~= b@.skip(i + 1));
        i = i + 1;
    }
    i == va.len()
}

fn unit_before_or_same(a: &UnitWithWords, b: &UnitWithWords) -> (r: bool)
    ensures
        r == unit_le(*a, *b),
{
    if a.unit_order < b.unit_order {
        true
    } else if a.unit_order == b.unit_order {
        str_le(a.unit_name.as_str(), b.unit_name.as_str())
    } else {
        false
    }
}

// ---------------------------------------------------------------------------
// Grouping
// ---------------------------------------------------------------------------

proof fn lemma_selected_extend(rows: Seq<UnitWordRow>, k: int, uid: Seq<char>, custom: bool)
    requires
        0 <= k < rows.len(),
    ensures
        selected_rows(rows.take(k + 1), uid, custom) == if row_selected(rows[k], uid, custom) {
            selected_rows(rows.take(k), uid, custom).push(rows[k])
        } else {
            selected_rows(rows.take(k), uid, custom)
        },
{
    assert(rows.take(k + 1).drop_last() =~= rows.take(k));
}

proof fn lemma_selected_absent(rows: Seq<UnitWordRow>, uid: Seq<char>, custom: bool)
    requires
        forall|j: int| 0 <= j < rows.len() ==> rows[j].unit_id@ != uid,
    ensures
        selected_rows(rows, uid, custom) == Seq::<UnitWordRow>::empty(),
    decreases rows.len(),
{
    if rows.len() > 0 {
        lemma_selected_absent(rows.drop_last(), uid, custom);
    }
}

fn clone_opt(o: &Option<String>) -> (r: Option<String>)
    ensures
        r == *o,
{
    match o {
        Some(s) => Some(s.clone()),
        None => None,
    }
}

fn item_of_row(r: &UnitWordRow, id: &String) -> (w: WordItem)
    requires
        r.word_id == Some(*id),
    ensures
        item_from_row(w, *r),
{
    let word = match &r.word_text {
        Some(t) => t.clone(),
        None => String::new(),
    };
    WordItem {
        id: id.clone(),
        word,
        meaning: clone_opt(&r.word_meaning),
        ipa: clone_opt(&r.word_ipa),
        parent_id: clone_opt(&r.word_parent_id),
        children_count: r.children_count,
    }
}

/// The position of the group of unit `uid`, if there is one.
fn find_group(groups: &Vec<UnitWithWords>, uid: &str) -> (r: Option<usize>)
    ensures
        match r {
            Some(j) => j < groups.len() && groups@[j as int].unit_id@ == uid@,
            None => forall|i: int| 0 <= i < groups.len() ==> groups@[i].unit_id@ != uid@,
        },
{
    let mut i: usize = 0;
    while i < groups.len()
        invariant
            i <= groups.len(),
            forall|m: int| 0 <= m < i ==> groups@[m].unit_id@ != uid@,
        decreases groups.len() - i,
    {
        if str_eq(groups[i].unit_id.as_str(), uid) {
            return Some(i);
        }
        i = i + 1;
    }
    None
}

pub open spec fn distinct_units(gs: Seq<UnitWithWords>) -> bool {
    forall|i: int, j: int| 0 <= i < j < gs.len() ==> gs[i].unit_id@ != gs[j].unit_id@
}

pub open spec fn has_unit(s: Seq<UnitWithWords>, uid: Seq<char>) -> bool {
    exists|i: int| 0 <= i < s.len() && #[trigger] s[i].unit_id@ == uid
}

pub open spec fn covers_rows(gs: Seq<UnitWithWords>, rows: Seq<UnitWordRow>) -> bool {
    forall|m: int| 0 <= m < rows.len() ==> has_unit(gs, #[trigger] rows[m].unit_id@)
}

#[verifier::opaque]
pub open spec fn gathered(gs: Seq<UnitWithWords>, rows: Seq<UnitWordRow>) -> bool {
    &&& distinct_units(gs)
    &&& forall|i: int| 0 <= i < gs.len() ==> group_of_rows(rows, #[trigger] gs[i])
    &&& covers_rows(gs, rows)
}

/// A group keeps its first row when a row is added after it.
proof fn lemma_group_kept(rows: Seq<UnitWordRow>, k: int, g: UnitWithWords)
    requires
        0 <= k < rows.len(),
        group_of_rows(rows.take(k), g),
        g.unit_id@ != rows[k].unit_id@,
    ensures
        group_of_rows(rows.take(k + 1), g),
{
    let pre = rows.take(k);
    let post = rows.take(k + 1);
    let h = choose|h: int|
        #[trigger] heads_unit(pre, h, g.unit_id@) && g.unit_name == pre[h].unit_name
            && g.unit_order == pre[h].unit_order;
    assert(heads_unit(post, h, g.unit_id@));
    lemma_selected_extend(rows, k, g.unit_id@, false);
    lemma_selected_extend(rows, k, g.unit_id@, true);
}

/// Adding row `k` to the group of its unit, at position `j`.
#[verifier::spinoff_prover]
#[verifier::rlimit(40)]
proof fn lemma_gather_existing(
    rows: Seq<UnitWordRow>,
    k: int,
    gs: Seq<UnitWithWords>,
    j: int,
    g: UnitWithWords,
)
    requires
        0 <= k < rows.len(),
        gathered(gs, rows.take(k)),
        0 <= j < gs.len(),
        gs[j].unit_id@ == rows[k].unit_id@,
        g.unit_id == gs[j].unit_id,
        g.unit_name == gs[j].unit_name,
        g.unit_order == gs[j].unit_order,
        items_from_rows(g.unit_words.original@, selected_rows(rows.take(k + 1), g.unit_id@, false)),
        items_from_rows(g.unit_words.custom@, selected_rows(rows.take(k + 1), g.unit_id@, true)),
    ensures
        gathered(gs.update(j, g), rows.take(k + 1)),
{
    reveal(gathered);
    let pre = rows.take(k);
    let post = rows.take(k + 1);
    let ngs = gs.update(j, g);
    assert forall|i: int| 0 <= i < ngs.len() implies group_of_rows(post, #[trigger] ngs[i]) by {
        if i != j {
            assert(group_of_rows(pre, gs[i]));
            lemma_group_kept(rows, k, gs[i]);
        } else {
            assert(group_of_rows(pre, gs[j]));
            let h = choose|h: int|
                #[trigger] heads_unit(pre, h, gs[j].unit_id@) && gs[j].unit_name == pre[h].unit_name
                    && gs[j].unit_order == pre[h].unit_order;
            assert(heads_unit(post, h, g.unit_id@));
        }
    }
    assert forall|m: int| 0 <= m < post.len() implies has_unit(ngs, #[trigger] post[m].unit_id@) by {
        if m < k {
            assert(pre[m] == post[m]);
            let i = choose|i: int| 0 <= i < gs.len() && #[trigger] gs[i].unit_id@ == pre[m].unit_id@;
            assert(ngs[i].unit_id@ == gs[i].unit_id@);
        } else {
            assert(ngs[j].unit_id@ == post[m].unit_id@);
        }
    }
}

/// The word lists of a gathered group.
proof fn lemma_gathered_group(gs: Seq<UnitWithWords>, rows: Seq<UnitWordRow>, j: int)
    requires
        gathered(gs, rows),
        0 <= j < gs.len(),
    ensures
        items_from_rows(gs[j].unit_words.original@, selected_rows(rows, gs[j].unit_id@, false)),
        items_from_rows(gs[j].unit_words.custom@, selected_rows(rows, gs[j].unit_id@, true)),
{
    reveal(gathered);
    assert(group_of_rows(rows, gs[j]));
}

/// Row `k` is the first row of its unit when no group covers that unit yet.
#[verifier::spinoff_prover]
#[verifier::rlimit(40)]
proof fn lemma_new_head(rows: Seq<UnitWordRow>, k: int, gs: Seq<UnitWithWords>)
    requires
        0 <= k < rows.len(),
        gathered(gs, rows.take(k)),
        forall|i: int| 0 <= i < gs.len() ==> gs[i].unit_id@ != rows[k].unit_id@,
    ensures
        heads_unit(rows.take(k + 1), k, rows[k].unit_id@),
        forall|m: int| 0 <= m < k ==> rows[m].unit_id@ != rows[k].unit_id@,
{
    reveal(gathered);
    let pre = rows.take(k);
    let post = rows.take(k + 1);
    assert forall|m: int| 0 <= m < k implies rows[m].unit_id@ != rows[k].unit_id@ by {
        assert(pre[m] == rows[m]);
        let i = choose|i: int| 0 <= i < gs.len() && #[trigger] gs[i].unit_id@ == pre[m].unit_id@;
    }
    assert forall|m: int| 0 <= m < k implies post[m].unit_id@ != rows[k].unit_id@ by {
        assert(post[m] == rows[m]);
    }
}

/// Opening a new group with row `k`, whose unit has no group yet.
#[verifier::spinoff_prover]
#[verifier::rlimit(40)]
proof fn lemma_gather_new(rows: Seq<UnitWordRow>, k: int, gs: Seq<UnitWithWords>, g: UnitWithWords)
    requires
        0 <= k < rows.len(),
        gathered(gs, rows.take(k)),
        forall|i: int| 0 <= i < gs.len() ==> gs[i].unit_id@ != rows[k].unit_id@,
        heads_unit(rows.take(k + 1), k, g.unit_id@),
        g.unit_id@ == rows[k].unit_id@,
        g.unit_name == rows[k].unit_name,
        g.unit_order == rows[k].unit_order,
        items_from_rows(
            g.unit_words.original@,
            selected_rows(rows.take(k + 1), g.unit_id@, false),
        ),
        items_from_rows(g.unit_words.custom@, selected_rows(rows.take(k + 1), g.unit_id@, true)),
    ensures
        gathered(gs.push(g), rows.take(k + 1)),
{
    reveal(gathered);
    let pre = rows.take(k);
    let post = rows.take(k + 1);
    let ngs = gs.push(g);
    assert(group_of_rows(post, g));
    assert forall|i: int| 0 <= i < ngs.len() implies group_of_rows(post, #[trigger] ngs[i]) by {
        if i < gs.len() {
            assert(ngs[i] == gs[i]);
            lemma_group_kept(rows, k, gs[i]);
        }
    }
    assert forall|m: int| 0 <= m < post.len() implies has_unit(ngs, #[trigger] post[m].unit_id@) by {
        if m < k {
            assert(pre[m] == post[m]);
            let i = choose|i: int| 0 <= i < gs.len() && #[trigger] gs[i].unit_id@ == pre[m].unit_id@;
            assert(ngs[i] == gs[i]);
        } else {
            assert(ngs[gs.len() as int].unit_id@ == post[m].unit_id@);
        }
    }
}

/// Adds the word of a row, if it has one, to the matching list of a group.
fn add_row_word(g: &mut UnitWithWords, r: &UnitWordRow)
    ensures
        final(g).unit_id == old(g).unit_id,
        final(g).unit_name == old(g).unit_name,
        final(g).unit_order == old(g).unit_order,
        forall|rs: Seq<UnitWordRow>|
            #[trigger] items_from_rows(old(g).unit_words.original@, rs) ==> items_from_rows(
                final(g).unit_words.original@,
                if row_selected(*r, r.unit_id@, false) {
                    rs.push(*r)
                } else {
                    rs
                },
            ),
        forall|rs: Seq<UnitWordRow>|
            #[trigger] items_from_rows(old(g).unit_words.custom@, rs) ==> items_from_rows(
                final(g).unit_words.custom@,
                if row_selected(*r, r.unit_id@, true) {
                    rs.push(*r)
                } else {
                    rs
                },
            ),
{
    match &r.word_id {
        Some(id) => {
            let item = item_of_row(r, id);
            let is_custom = match r.word_custom {
                Some(c) => c != 0,
                None => false,
            };
            if is_custom {
                g.unit_words.custom.push(item);
            } else {
                g.unit_words.original.push(item);
            }
        },
        None => {},
    }
}

/// Gathers the rows by unit, in the order in which units first appear.
fn gather_units(rows: &Vec<UnitWordRow>) -> (gs: Vec<UnitWithWords>)
    ensures
        gathered(gs@, rows@),
{
    let mut gs: Vec<UnitWithWords> = Vec::new();
    let mut k: usize = 0;
    assert(rows@.take(0) =~= Seq::<UnitWordRow>::empty());
    assert(gathered(gs@, rows@.take(0))) by {
        reveal(gathered);
    }
    while k < rows.len()
        invariant
            k <= rows.len(),
            gathered(gs@, rows@.take(k as int)),
        decreases rows.len() - k,
    {
        let r = &rows[k];
        proof {
            lemma_selected_extend(rows@, k as int, r.unit_id@, false);
            lemma_selected_extend(rows@, k as int, r.unit_id@, true);
        }
        let found = find_group(&gs, r.unit_id.as_str());
        match found {
            Some(j) => {
                let ghost old_gs = gs@;
                let mut g = gs.remove(j);
                assert(g == old_gs[j as int]);
                proof {
                    lemma_gathered_group(old_gs, rows@.take(k as int), j as int);
                }
                add_row_word(&mut g, r);
                proof {
                    lemma_gather_existing(rows@, k as int, old_gs, j as int, g);
                }
                gs.insert(j, g);
                assert(gs@ =~= old_gs.update(j as int, g));
            },
            None => {
                let mut g = UnitWithWords {
                    unit_id: r.unit_id.clone(),
                    unit_name: r.unit_name.clone(),
                    unit_order: r.unit_order,
                    unit_words: UnitWords { original: Vec::new(), custom: Vec::new() },
                };
                proof {
                    lemma_new_head(rows@, k as int, gs@);
                    lemma_selected_absent(rows@.take(k as int), r.unit_id@, false);
                    lemma_selected_absent(rows@.take(k as int), r.unit_id@, true);
                    assert(items_from_rows(g.unit_words.original@, Seq::<UnitWordRow>::empty()));
                    assert(items_from_rows(g.unit_words.custom@, Seq::<UnitWordRow>::empty()));
                }
                add_row_word(&mut g, r);
                proof {
                    lemma_gather_new(rows@, k as int, gs@, g);
                }
                gs.push(g);
            },
        }
        k = k + 1;
    }
    assert(rows@.take(rows.len() as int) =~= rows@);
    gs
}

// ---------------------------------------------------------------------------
// Sorting
// ---------------------------------------------------------------------------

pub open spec fn sorted_units(s: Seq<UnitWithWords>) -> bool {
    forall|i: int, j: int| 0 <= i < j < s.len() ==> #[trigger] unit_le(s[i], s[j])
}

/// The first position whose unit comes strictly after `g`.
fn insert_position(out: &Vec<UnitWithWords>, g: &UnitWithWords) -> (p: usize)
    ensures
        p <= out.len(),
        forall|i: int| 0 <= i < p ==> unit_le(#[trigger] out@[i], *g),
        p < out.len() ==> !unit_le(out@[p as int], *g),
{
    let mut p: usize = 0;
    while p < out.len() && unit_before_or_same(&out[p], g)
        invariant
            p <= out.len(),
            forall|i: int| 0 <= i < p ==> unit_le(#[trigger] out@[i], *g),
        decreases out.len() - p,
    {
        p = p + 1;
    }
    p
}

#[verifier::spinoff_prover]
proof fn lemma_insert_sorted(out: Seq<UnitWithWords>, p: int, g: UnitWithWords)
    requires
        sorted_units(out),
        0 <= p <= out.len(),
        forall|i: int| 0 <= i < p ==> unit_le(#[trigger] out[i], g),
        p < out.len() ==> !unit_le(out[p], g),
    ensures
        sorted_units(out.insert(p, g)),
{
    let n = out.insert(p, g);
    if p < out.len() {
        lemma_unit_total(out[p], g);
    }
    assert forall|i: int, j: int| 0 <= i < j < n.len() implies #[trigger] unit_le(n[i], n[j]) by {
        if j < p {
            assert(n[i] == out[i] && n[j] == out[j]);
        } else if j == p {
            assert(n[i] == out[i] && n[j] == g);
        } else if i < p {
            assert(n[i] == out[i] && n[j] == out[j - 1]);
        } else if i == p {
            assert(n[i] == g && n[j] == out[j - 1]);
            if j - 1 > p {
                assert(unit_le(out[p], out[j - 1]));
                lemma_unit_trans(g, out[p], out[j - 1]);
            }
        } else {
            assert(n[i] == out[i - 1] && n[j] == out[j - 1]);
        }
    }
}

pub open spec fn all_groups_of(s: Seq<UnitWithWords>, rows: Seq<UnitWordRow>) -> bool {
    forall|i: int| 0 <= i < s.len() ==> group_of_rows(rows, #[trigger] s[i])
}

pub open spec fn sort_inv(
    rest: Seq<UnitWithWords>,
    out: Seq<UnitWithWords>,
    rows: Seq<UnitWordRow>,
) -> bool {
    &&& all_groups_of(rest, rows)
    &&& all_groups_of(out, rows)
    &&& distinct_units(rest)
    &&& distinct_units(out)
    &&& forall|i: int, j: int|
        0 <= i < rest.len() && 0 <= j < out.len() ==> #[trigger] rest[i].unit_id@
            != #[trigger] out[j].unit_id@
    &&& forall|m: int|
        0 <= m < rows.len() ==> has_unit(rest, #[trigger] rows[m].unit_id@) || has_unit(
            out,
            rows[m].unit_id@,
        )
    &&& sorted_units(out)
}

#[verifier::spinoff_prover]
#[verifier::rlimit(40)]
proof fn lemma_sort_step(
    rest: Seq<UnitWithWords>,
    out: Seq<UnitWithWords>,
    rows: Seq<UnitWordRow>,
    p: int,
)
    requires
        sort_inv(rest, out, rows),
        rest.len() > 0,
        0 <= p <= out.len(),
        forall|i: int| 0 <= i < p ==> unit_le(#[trigger] out[i], rest.last()),
        p < out.len() ==> !unit_le(out[p], rest.last()),
    ensures
        sort_inv(rest.drop_last(), out.insert(p, rest.last()), rows),
{
    let g = rest.last();
    let r2 = rest.drop_last();
    let o2 = out.insert(p, g);
    lemma_insert_sorted(out, p, g);
    assert forall|i: int| 0 <= i < o2.len() implies group_of_rows(rows, #[trigger] o2[i]) by {
        if i < p {
            assert(o2[i] == out[i]);
        } else if i > p {
            assert(o2[i] == out[i - 1]);
        }
    }
    assert forall|i: int| 0 <= i < r2.len() implies group_of_rows(rows, #[trigger] r2[i]) by {
        assert(r2[i] == rest[i]);
    }
    assert forall|i: int, j: int| 0 <= i < j < o2.len() implies o2[i].unit_id@ != o2[j].unit_id@ by {
        if j < p {
        } else if j == p {
            assert(rest[rest.len() - 1].unit_id@ != out[i].unit_id@);
        } else if i < p {
            assert(o2[j] == out[j - 1]);
        } else if i == p {
            assert(o2[j] == out[j - 1]);
            assert(rest[rest.len() - 1].unit_id@ != out[j - 1].unit_id@);
        } else {
            assert(o2[i] == out[i - 1] && o2[j] == out[j - 1]);
        }
    }
    assert forall|i: int, j: int|
        0 <= i < r2.len() && 0 <= j < o2.len() implies #[trigger] r2[i].unit_id@
            != #[trigger] o2[j].unit_id@ by {
        assert(r2[i] == rest[i]);
        if j < p {
            assert(o2[j] == out[j]);
        } else if j == p {
            assert(rest[i].unit_id@ != rest[rest.len() - 1].unit_id@);
        } else {
            assert(o2[j] == out[j - 1]);
        }
    }
    assert forall|m: int| 0 <= m < rows.len() implies has_unit(r2, #[trigger] rows[m].unit_id@)
        || has_unit(o2, rows[m].unit_id@) by {
        let u = rows[m].unit_id@;
        if has_unit(rest, u) {
            let i = choose|i: int| 0 <= i < rest.len() && #[trigger] rest[i].unit_id@ == u;
            if i == rest.len() - 1 {
                assert(o2[p].unit_id@ == u);
            } else {
                assert(r2[i] == rest[i]);
            }
        } else {
            let j = choose|j: int| 0 <= j < out.len() && #[trigger] out[j].unit_id@ == u;
            if j < p {
                assert(o2[j] == out[j]);
            } else {
                assert(o2[j + 1] == out[j]);
            }
        }
    }
}

/// Groups the rows of the words-by-units query by unit.
///
/// There is one group per unit of the rows, and no two for the same unit;
/// each group has the name and order of its unit's first row and the words of
/// its unit's rows, in row order, split into the book's words and the words
/// added by the user; rows without a word add none. The groups are sorted by
/// unit order, then by unit name (units that tie on both may come in any order).
pub fn group_words_by_unit(rows: &Vec<UnitWordRow>) -> (r: Vec<UnitWithWords>)
    ensures
        distinct_units(r@),
        all_groups_of(r@, rows@),
        covers_rows(r@, rows@),
        sorted_units(r@),
{
    let mut rest = gather_units(rows);
    let mut out: Vec<UnitWithWords> = Vec::new();
    proof {
        reveal(gathered);
        assert forall|m: int| 0 <= m < rows@.len() implies has_unit(
            rest@,
            #[trigger] rows@[m].unit_id@,
        ) || has_unit(out@, rows@[m].unit_id@) by {
            assert(has_unit(rest@, rows@[m].unit_id@));
        }
    }
    while rest.len() > 0
        invariant
            sort_inv(rest@, out@, rows@),
        decreases rest.len(),
    {
        let ghost old_rest = rest@;
        let ghost old_out = out@;
        let g = rest.pop().unwrap();
        let p = insert_position(&out, &g);
        proof {
            lemma_sort_step(old_rest, old_out, rows@, p as int);
        }
        out.insert(p, g);
    }
    proof {
        assert forall|m: int| 0 <= m < rows@.len() implies has_unit(
            out@,
            #[trigger] rows@[m].unit_id@,
        ) by {
            assert(!has_unit(rest@, rows@[m].unit_id@));
        }
    }
    out
}

proof fn lemma_selected_rows_members(rows: Seq<UnitWordRow>, uid: Seq<char>, custom: bool)
    ensures
        forall|k: int|
            0 <= k < selected_rows(rows, uid, custom).len() ==> {
                &&& (#[trigger] selected_rows(rows, uid, custom)[k]).unit_id@ == uid
                &&& selected_rows(rows, uid, custom)[k].word_id is Some
                &&& is_custom_row(selected_rows(rows, uid, custom)[k]) == custom
                &&& rows.contains(selected_rows(rows, uid, custom)[k])
            },
    decreases rows.len(),
{
    if rows.len() > 0 {
        let p = rows.drop_last();
        lemma_selected_rows_members(p, uid, custom);
        let sel = selected_rows(rows, uid, custom);
        let prev = selected_rows(p, uid, custom);
        assert forall|k: int| 0 <= k < sel.len() implies rows.contains(#[trigger] sel[k]) by {
            if k < prev.len() {
                assert(sel[k] == prev[k]);
                assert(p.contains(prev[k]));
                let j = choose|j: int| 0 <= j < p.len() && p[j] == prev[k];
                assert(rows[j] == p[j]);
            } else {
                assert(rows[rows.len() - 1] == sel[k]);
            }
        }
    }
}

/// Each word of a group is the word of the matching row of its unit: the
/// k-th book word (or user word) of a unit is made from the unit's k-th row
/// that holds a book word (or user word). That row is one of the rows, of the
/// group's unit, with a word, and the item has its word id, meaning,
/// transcription, parent id and child count, and its text (empty when the
/// row has none).
pub proof fn lemma_group_words_carry_rows(rows: Seq<UnitWordRow>, groups: Seq<UnitWithWords>, gi: int, custom: bool, k: int)
    requires
        all_groups_of(groups, rows),
        0 <= gi < groups.len(),
        0 <= k < (if custom {
            groups[gi].unit_words.custom@
        } else {
            groups[gi].unit_words.original@
        }).len(),
    ensures
        ({
            let w = (if custom {
                groups[gi].unit_words.custom@
            } else {
                groups[gi].unit_words.original@
            })[k];
            let row = selected_rows(rows, groups[gi].unit_id@, custom)[k];
            &&& k < selected_rows(rows, groups[gi].unit_id@, custom).len()
            &&& rows.contains(row)
            &&& row.unit_id@ == groups[gi].unit_id@
            &&& is_custom_row(row) == custom
            &&& row.word_id == Some(w.id)
            &&& w.ipa == row.word_ipa
            &&& w.parent_id == row.word_parent_id
            &&& w.meaning == row.word_meaning
            &&& w.children_count == row.children_count
            &&& w.word@ == match row.word_text {
                Some(t) => t@,
                None => Seq::<char>::empty(),
            }
        }),
{
    let g = groups[gi];
    assert(group_of_rows(rows, g));
    lemma_selected_rows_members(rows, g.unit_id@, custom);
    let sel = selected_rows(rows, g.unit_id@, custom);
    let ws = if custom { g.unit_words.custom@ } else { g.unit_words.original@ };
    assert(items_from_rows(ws, sel));
    assert(item_from_row(ws[k], sel[k]));
}

} // verus!
