use vstd::prelude::*;

verus! {

/// The level of a curriculum.
#[derive(Debug)]
pub struct LevelInfo {
    pub id: String,
    pub name: String,
    pub code_name: String,
}

/// A curriculum as listed.
#[derive(Debug)]
pub struct Curriculum {
    pub id: String,
    pub name: String,
    pub description: Option<String>,
    pub created_at: String,
    pub updated_at: String,
    pub link_image: String,
    pub level: Option<LevelInfo>,
    pub unit_count: i64,
}

/// Where a page of curriculums stands.
#[derive(Debug)]
pub struct CurriculumPaginationMeta {
    pub total: i64,
    pub page: i64,
    pub limit: i64,
    pub total_pages: i64,
}

/// A page of curriculums.
#[derive(Debug)]
pub struct CurriculumPagination {
    pub data: Vec<Curriculum>,
    pub meta: CurriculumPaginationMeta,
}

/// A level met among the units of a curriculum.
#[derive(Debug)]
pub struct LevelResponse {
    pub level_id: String,
    pub level_code: Option<String>,
    pub level_name: Option<String>,
    pub level_description: Option<String>,
}

/// A unit of a curriculum with its level.
#[derive(Debug)]
pub struct UnitResponse {
    pub unit_id: String,
    pub unit_name: String,
    pub unit_order: i32,
    pub link: String,
    pub level_id: Option<String>,
    pub level_name: Option<String>,
    pub level_description: Option<String>,
    pub level_code: Option<String>,
}

/// A curriculum with its units and levels.
#[derive(Debug)]
pub struct CurriculumDetail {
    pub id: String,
    pub name: String,
    pub description: String,
    pub created_at: String,
    pub updated_at: String,
    pub link_image: String,
    pub units: Vec<UnitResponse>,
    pub levels: Vec<LevelResponse>,
}

/// The level of a listed curriculum: known only when its id, name and code
/// were all found.
pub fn level_info(id: Option<String>, name: Option<String>, code: Option<String>) -> (r: Option<LevelInfo>)
    ensures
        r is Some <==> (id is Some && name is Some && code is Some),
        r matches Some(l) ==> Some(l.id) == id && Some(l.name) == name && Some(l.code_name) == code,
{
    match (id, name, code) {
        (Some(id), Some(name), Some(code_name)) => Some(LevelInfo { id, name, code_name }),
        _ => None,
    }
}

/// Where a page of curriculums stands: there is always at least one page.
pub fn curriculum_meta(total: i64, page: i64, limit: i64, pages: i64) -> (r: CurriculumPaginationMeta)
    ensures
        r.total == total,
        r.page == page,
        r.limit == limit,
        r.total_pages == if pages >= 1 { pages } else { 1 },
{
    CurriculumPaginationMeta {
        total,
        page,
        limit,
        total_pages: if pages >= 1 {
            pages
        } else {
            1
        },
    }
}

} // verus!
