//! Recipe listing and search: the page window, the SQL of the search (as
//! text fragments and bound values, in order) and the page that is returned.

use crate::models::recipe::{
    Order, RecipeAccessRights, RecipeFilters, RecipeShareState, RecipeSearchQuery, RecipeSort,
};
use crate::text::{
    decimal, digits_value, is_digits, lemma_decimal_digits, parse_decimal_i64, str_eq,
    u64_to_decimal,
};
use vstd::prelude::*;
use vstd::string::*;

verus! {

/// Page and page size asked for by a listing request. The page is given by
/// number, or by the opaque cursor that the previous page answered with.
#[derive(Debug, Clone)]
pub struct PaginationQuery {
    pub page: Option<i64>,
    pub limit: Option<i64>,
    pub cursor: Option<String>,
}

/// A page of results and the cursor of the next page (`None` on the last page).
#[derive(Debug, Clone)]
pub struct PaginatedResponse<T> {
    pub data: Vec<T>,
    pub cursor: Option<String>,
}

/// The effective page size (default 20, capped at 100), page (default 1, at
/// least 1) and row offset of a listing.
#[derive(Debug, Clone, Copy)]
pub struct PageWindow {
    pub limit: i64,
    pub page: i64,
    pub offset: i64,
}

pub open spec fn window_limit(q: PaginationQuery) -> i64 {
    let l = match q.limit {
        Some(l) => l,
        None => 20,
    };
    if l < 100 {
        l
    } else {
        100
    }
}

/// The page a cursor names: a cursor is the decimal number of a page; any
/// other text names none.
pub open spec fn cursor_page(c: Option<String>) -> Option<i64> {
    match c {
        Some(t) => if is_digits(t@) && digits_value(t@) <= i64::MAX {
            Some(digits_value(t@) as i64)
        } else {
            None
        },
        None => None,
    }
}

/// The page asked for: the given page number, else the page the cursor
/// names, else 1; at least 1.
pub open spec fn window_page(q: PaginationQuery) -> i64 {
    let p = match q.page {
        Some(p) => p,
        None => match cursor_page(q.cursor) {
            Some(c) => c,
            None => 1,
        },
    };
    if p > 1 {
        p
    } else {
        1
    }
}

pub open spec fn window_offset(q: PaginationQuery) -> int {
    (window_page(q) - 1) * window_limit(q)
}

/// The page window of a listing request. The offset `(page - 1) * limit`
/// must fit in 64 bits.
pub fn page_window(q: PaginationQuery) -> (w: PageWindow)
    requires
        i64::MIN <= window_offset(q) <= i64::MAX,
    ensures
        w.limit == window_limit(q),
        w.page == window_page(q),
        w.offset == window_offset(q),
        w.limit <= 100,
        w.page >= 1,
{
    let l = match q.limit {
        Some(l) => l,
        None => 20,
    };
    let limit = if l < 100 {
        l
    } else {
        100
    };
    let p = match q.page {
        Some(p) => p,
        None => match &q.cursor {
            Some(c) => match parse_decimal_i64(c.as_str()) {
                Some(v) => v,
                None => 1,
            },
            None => 1,
        },
    };
    let page = if p > 1 {
        p
    } else {
        1
    };
    let offset = (page - 1) * limit;
    PageWindow { limit, page, offset }
}

/// Whether the row offset of a listing request fits in 64 bits (the
/// precondition of `page_window`).
pub fn window_fits(q: &PaginationQuery) -> (b: bool)
    ensures
        b == (i64::MIN <= window_offset(*q) <= i64::MAX),
{
    let l = match q.limit {
        Some(l) => l,
        None => 20,
    };
    let limit = if l < 100 {
        l
    } else {
        100
    };
    let p = match q.page {
        Some(p) => p,
        None => match &q.cursor {
            Some(c) => match parse_decimal_i64(c.as_str()) {
                Some(v) => v,
                None => 1,
            },
            None => 1,
        },
    };
    let page = if p > 1 {
        p
    } else {
        1
    };
    (page - 1).checked_mul(limit).is_some()
}

/// A value bound to a placeholder of the search.
#[derive(Debug, Clone)]
pub enum SqlParam {
    Int(i64),
    Int32(i32),
    IntList(Vec<i64>),
    TextList(Vec<String>),
}

/// A piece of the search: SQL text, or a value bound to the next placeholder.
#[derive(Debug, Clone)]
pub enum QueryPiece {
    Sql(String),
    Bind(SqlParam),
}

pub enum ParamView {
    Int(i64),
    Int32(i32),
    IntList(Seq<i64>),
    TextList(Seq<Seq<char>>),
}

pub enum PieceView {
    Sql(Seq<char>),
    Bind(ParamView),
}

impl View for SqlParam {
    type V = ParamView;

    open spec fn view(&self) -> ParamView {
        match self {
            SqlParam::Int(v) => ParamView::Int(*v),
            SqlParam::Int32(v) => ParamView::Int32(*v),
            SqlParam::IntList(v) => ParamView::IntList(v@),
            SqlParam::TextList(v) => ParamView::TextList(v@.map_values(|s: String| s@)),
        }
    }
}

impl View for QueryPiece {
    type V = PieceView;

    open spec fn view(&self) -> PieceView {
        match self {
            QueryPiece::Sql(s) => PieceView::Sql(s@),
            QueryPiece::Bind(p) => PieceView::Bind(p@),
        }
    }
}

pub open spec fn views(ps: Seq<QueryPiece>) -> Seq<PieceView> {
    ps.map_values(|p: QueryPiece| p@)
}

pub open spec fn sql(s: &str) -> PieceView {
    PieceView::Sql(s@)
}

pub open spec fn bind_int(v: i64) -> PieceView {
    PieceView::Bind(ParamView::Int(v))
}

/// The columns and table of the search, before any condition; each row
/// carries its roles, tags, average rating and the ratings themselves.
pub open spec fn select_sql() -> Seq<PieceView> {
    seq![
        sql(
            r#"
        SELECT
            r.id, r.owner_id, r.name, r.source, r.time_display,
            r.work_minutes, r.overall_minutes, r.size_number, r.size_text, r.main_image_id,
            r.created_at, r.updated_at,
            COALESCE((SELECT array_agg(user_id) FROM recipe_editors WHERE recipe_id = r.id), '{}') as editors,
            COALESCE((SELECT array_agg(user_id) FROM recipe_viewers WHERE recipe_id = r.id), '{}') as viewers,
            COALESCE((SELECT array_agg(tag_id ORDER BY position) FROM recipe_tags WHERE recipe_id = r.id), '{}') as tags,
            COALESCE((SELECT AVG(rating) FROM user_ratings WHERE recipe_id = r.id), 0.0) as avg_rating,
            COALESCE((SELECT array_agg(user_id::INT8 ORDER BY user_id) FROM user_ratings WHERE recipe_id = r.id), '{}') as rating_users,
            COALESCE((SELECT array_agg(rating::INT4 ORDER BY user_id) FROM user_ratings WHERE recipe_id = r.id), '{}') as rating_values
        FROM recipes r
        WHERE 1=1
        "#,
        ),
    ]
}

/// The alternative contributed by one role filter.
pub open spec fn role_sql(u: i64, a: RecipeAccessRights) -> Seq<PieceView> {
    match a {
        RecipeAccessRights::Owner => seq![sql(" OR r.owner_id = "), bind_int(u)],
        RecipeAccessRights::Editor => seq![
            sql(
                " OR EXISTS (SELECT 1 FROM recipe_editors e WHERE e.recipe_id = r.id AND e.user_id = ",
            ),
            bind_int(u),
            sql(")"),
        ],
        RecipeAccessRights::Viewer => seq![
            sql(
                " OR EXISTS (SELECT 1 FROM recipe_viewers v WHERE v.recipe_id = r.id AND v.user_id = ",
            ),
            bind_int(u),
            sql(")"),
        ],
    }
}

/// The alternative contributed by one share-state filter: private (owned,
/// no editors, no viewers), shared (no editors, some viewer) or
/// collaborative (some editor).
pub open spec fn share_sql(u: i64, s: RecipeShareState) -> Seq<PieceView> {
    match s {
        RecipeShareState::Private => seq![
            sql(" OR (r.owner_id = "),
            bind_int(u),
            sql(" AND NOT EXISTS (SELECT 1 FROM recipe_editors WHERE recipe_id = r.id)"),
            sql(" AND NOT EXISTS (SELECT 1 FROM recipe_viewers WHERE recipe_id = r.id)"),
            sql(")"),
        ],
        RecipeShareState::Shared => seq![
            sql(" OR (EXISTS (SELECT 1 FROM recipe_viewers WHERE recipe_id = r.id)"),
            sql(" AND NOT EXISTS (SELECT 1 FROM recipe_editors WHERE recipe_id = r.id)"),
            sql(")"),
        ],
        RecipeShareState::Collaborative => seq![
            sql(" OR EXISTS (SELECT 1 FROM recipe_editors WHERE recipe_id = r.id)"),
        ],
    }
}

pub open spec fn roles_sql(u: i64, accs: Seq<RecipeAccessRights>) -> Seq<PieceView>
    decreases accs.len(),
{
    if accs.len() == 0 {
        seq![]
    } else {
        roles_sql(u, accs.drop_last()) + role_sql(u, accs.last())
    }
}

pub open spec fn shares_sql(u: i64, shs: Seq<RecipeShareState>) -> Seq<PieceView>
    decreases shs.len(),
{
    if shs.len() == 0 {
        seq![]
    } else {
        shares_sql(u, shs.drop_last()) + share_sql(u, shs.last())
    }
}

pub open spec fn nonempty_roles(f: Option<RecipeFilters>) -> bool {
    f matches Some(f) && f.access_rights matches Some(a) && a@.len() > 0
}

pub open spec fn nonempty_shares(f: Option<RecipeFilters>) -> bool {
    f matches Some(f) && f.share_states matches Some(s) && s@.len() > 0
}

/// The role and share-state filters: one of the given alternatives must hold.
pub open spec fn role_filter_sql(u: i64, f: Option<RecipeFilters>) -> Seq<PieceView> {
    if nonempty_roles(f) || nonempty_shares(f) {
        let fs = f->0;
        let r = match fs.access_rights {
            Some(a) => roles_sql(u, a@),
            None => seq![],
        };
        let s = match fs.share_states {
            Some(s) => shares_sql(u, s@),
            None => seq![],
        };
        seq![sql(" AND (1=0")] + r + s + seq![sql(")")]
    } else {
        seq![]
    }
}

/// Only recipes the user owns, edits or views are listed.
pub open spec fn access_sql(u: i64) -> Seq<PieceView> {
    seq![
        sql(" AND (r.owner_id = "),
        bind_int(u),
        sql(" OR EXISTS (SELECT 1 FROM recipe_editors e WHERE e.recipe_id = r.id AND e.user_id = "),
        bind_int(u),
        sql(")"),
        sql(" OR EXISTS (SELECT 1 FROM recipe_viewers v WHERE v.recipe_id = r.id AND v.user_id = "),
        bind_int(u),
        sql("))"),
    ]
}

/// A count of the matches among `ids` that must equal the number of ids.
pub open spec fn all_of_sql(prefix: &str, ids: ParamView, n: nat) -> Seq<PieceView> {
    seq![sql(prefix), PieceView::Bind(ids), sql(")) = "), PieceView::Sql(decimal(n))]
}

pub open spec fn categories_sql(f: RecipeFilters) -> Seq<PieceView> {
    match f.categories {
        Some(c) if c@.len() > 0 => all_of_sql(
            " AND (SELECT count(DISTINCT ucr.category_id) FROM user_category_recipes ucr WHERE ucr.recipe_id = r.id AND ucr.category_id = ANY(",
            ParamView::IntList(c@),
            c@.len(),
        ),
        _ => seq![],
    }
}

pub open spec fn tags_sql(f: RecipeFilters) -> Seq<PieceView> {
    match f.tags {
        Some(t) if t@.len() > 0 => all_of_sql(
            " AND (SELECT count(DISTINCT rt.tag_id) FROM recipe_tags rt WHERE rt.recipe_id = r.id AND rt.tag_id = ANY(",
            ParamView::TextList(t@.map_values(|s: String| s@)),
            t@.len(),
        ),
        _ => seq![],
    }
}

pub open spec fn ingredients_sql(f: RecipeFilters) -> Seq<PieceView> {
    match f.ingredients {
        Some(i) if i@.len() > 0 => all_of_sql(
            " AND (SELECT count(DISTINCT ri.ingredient_id) FROM sections s JOIN recipe_ingredients ri ON s.id = ri.section_id WHERE s.recipe_id = r.id AND ri.ingredient_id = ANY(",
            ParamView::IntList(i@),
            i@.len(),
        ),
        _ => seq![],
    }
}

pub open spec fn max_work_sql(f: RecipeFilters) -> Seq<PieceView> {
    match f.max_work_time {
        Some(m) => seq![sql(" AND r.work_minutes <= "), PieceView::Bind(ParamView::Int32(m))],
        None => seq![],
    }
}

/// The content filters: all given categories, all given tags, all given
/// ingredients, and at most the given work time.
pub open spec fn content_filter_sql(f: Option<RecipeFilters>) -> Seq<PieceView> {
    match f {
        Some(f) => categories_sql(f) + tags_sql(f) + ingredients_sql(f) + max_work_sql(f),
        None => seq![],
    }
}

pub open spec fn direction_sql(o: Order) -> PieceView {
    if o == Order::Desc {
        sql("DESC NULLS LAST")
    } else {
        sql("ASC NULLS LAST")
    }
}

/// The ordering: by name, work time, total time or average rating in the
/// given direction; by id for any other key and when no sort is given.
pub open spec fn order_sql(s: Option<RecipeSort>) -> Seq<PieceView> {
    match s {
        Some(s) => {
            let f = s.field@;
            if f == "name"@ {
                seq![sql(" ORDER BY r.name "), direction_sql(s.order)]
            } else if f == "worktime"@ || f == "work_time"@ {
                seq![sql(" ORDER BY r.work_minutes "), direction_sql(s.order)]
            } else if f == "totaltime"@ || f == "total_time"@ {
                seq![sql(" ORDER BY r.overall_minutes "), direction_sql(s.order)]
            } else if f == "rating"@ {
                seq![sql(" ORDER BY avg_rating "), direction_sql(s.order)]
            } else {
                seq![sql(" ORDER BY r.id ASC")]
            }
        },
        None => seq![sql(" ORDER BY r.id ASC")],
    }
}

/// One row more than the page size is fetched, to tell whether a next page exists.
pub open spec fn page_sql(w: PageWindow) -> Seq<PieceView> {
    seq![sql(" LIMIT "), bind_int((w.limit + 1) as i64), sql(" OFFSET "), bind_int(w.offset)]
}

/// The whole search of `user` within window `w`.
pub open spec fn search_sql(user: i64, w: PageWindow, q: RecipeSearchQuery) -> Seq<PieceView> {
    select_sql() + role_filter_sql(user, q.filters) + access_sql(user) + content_filter_sql(
        q.filters,
    ) + order_sql(q.sort) + page_sql(w)
}

fn push_sql(out: &mut Vec<QueryPiece>, s: &str)
    ensures
        views(final(out)@) == views(old(out)@).push(sql(s)),
{
    out.push(QueryPiece::Sql(String::from_str(s)));
    assert(views(out@) =~= views(old(out)@).push(sql(s)));
}

fn push_bind(out: &mut Vec<QueryPiece>, p: SqlParam)
    ensures
        views(final(out)@) == views(old(out)@).push(PieceView::Bind(p@)),
{
    out.push(QueryPiece::Bind(p));
    assert(views(out@) =~= views(old(out)@).push(PieceView::Bind(p@)));
}


fn push_select(out: &mut Vec<QueryPiece>)
    ensures
        views(final(out)@) == views(old(out)@) + select_sql(),
{
    push_sql(
        out,
        r#"
        SELECT
            r.id, r.owner_id, r.name, r.source, r.time_display,
            r.work_minutes, r.overall_minutes, r.size_number, r.size_text, r.main_image_id,
            r.created_at, r.updated_at,
            COALESCE((SELECT array_agg(user_id) FROM recipe_editors WHERE recipe_id = r.id), '{}') as editors,
            COALESCE((SELECT array_agg(user_id) FROM recipe_viewers WHERE recipe_id = r.id), '{}') as viewers,
            COALESCE((SELECT array_agg(tag_id ORDER BY position) FROM recipe_tags WHERE recipe_id = r.id), '{}') as tags,
            COALESCE((SELECT AVG(rating) FROM user_ratings WHERE recipe_id = r.id), 0.0) as avg_rating,
            COALESCE((SELECT array_agg(user_id::INT8 ORDER BY user_id) FROM user_ratings WHERE recipe_id = r.id), '{}') as rating_users,
            COALESCE((SELECT array_agg(rating::INT4 ORDER BY user_id) FROM user_ratings WHERE recipe_id = r.id), '{}') as rating_values
        FROM recipes r
        WHERE 1=1
        "#,
    );
    assert(views(out@) =~= views(old(out)@) + select_sql());
}

fn push_role(out: &mut Vec<QueryPiece>, u: i64, a: RecipeAccessRights)
    ensures
        views(final(out)@) == views(old(out)@) + role_sql(u, a),
{
    match a {
        RecipeAccessRights::Owner => {
            push_sql(out, " OR r.owner_id = ");
            push_bind(out, SqlParam::Int(u));
        },
        RecipeAccessRights::Editor => {
            push_sql(
                out,
                " OR EXISTS (SELECT 1 FROM recipe_editors e WHERE e.recipe_id = r.id AND e.user_id = ",
            );
            push_bind(out, SqlParam::Int(u));
            push_sql(out, ")");
        },
        RecipeAccessRights::Viewer => {
            push_sql(
                out,
                " OR EXISTS (SELECT 1 FROM recipe_viewers v WHERE v.recipe_id = r.id AND v.user_id = ",
            );
            push_bind(out, SqlParam::Int(u));
            push_sql(out, ")");
        },
    }
    assert(views(out@) =~= views(old(out)@) + role_sql(u, a));
}

fn push_share(out: &mut Vec<QueryPiece>, u: i64, s: RecipeShareState)
    ensures
        views(final(out)@) == views(old(out)@) + share_sql(u, s),
{
    match s {
        RecipeShareState::Private => {
            push_sql(out, " OR (r.owner_id = ");
            push_bind(out, SqlParam::Int(u));
            push_sql(out, " AND NOT EXISTS (SELECT 1 FROM recipe_editors WHERE recipe_id = r.id)");
            push_sql(out, " AND NOT EXISTS (SELECT 1 FROM recipe_viewers WHERE recipe_id = r.id)");
            push_sql(out, ")");
        },
        RecipeShareState::Shared => {
            push_sql(out, " OR (EXISTS (SELECT 1 FROM recipe_viewers WHERE recipe_id = r.id)");
            push_sql(out, " AND NOT EXISTS (SELECT 1 FROM recipe_editors WHERE recipe_id = r.id)");
            push_sql(out, ")");
        },
        RecipeShareState::Collaborative => {
            push_sql(out, " OR EXISTS (SELECT 1 FROM recipe_editors WHERE recipe_id = r.id)");
        },
    }
    assert(views(out@) =~= views(old(out)@) + share_sql(u, s));
}

fn push_roles(out: &mut Vec<QueryPiece>, u: i64, accs: &Vec<RecipeAccessRights>)
    ensures
        views(final(out)@) == views(old(out)@) + roles_sql(u, accs@),
{
    let n = accs.len();
    let mut i: usize = 0;
    while i < n
        invariant
            n == accs@.len(),
            i <= n,
            views(out@) == views(old(out)@) + roles_sql(u, accs@.take(i as int)),
        decreases n - i,
    {
        push_role(out, u, accs[i]);
        assert(accs@.take(i + 1).drop_last() =~= accs@.take(i as int));
        assert(views(out@) =~= views(old(out)@) + roles_sql(u, accs@.take(i + 1)));
        i = i + 1;
    }
    assert(accs@.take(n as int) =~= accs@);
}

fn push_shares(out: &mut Vec<QueryPiece>, u: i64, shs: &Vec<RecipeShareState>)
    ensures
        views(final(out)@) == views(old(out)@) + shares_sql(u, shs@),
{
    let n = shs.len();
    let mut i: usize = 0;
    while i < n
        invariant
            n == shs@.len(),
            i <= n,
            views(out@) == views(old(out)@) + shares_sql(u, shs@.take(i as int)),
        decreases n - i,
    {
        push_share(out, u, shs[i]);
        assert(shs@.take(i + 1).drop_last() =~= shs@.take(i as int));
        assert(views(out@) =~= views(old(out)@) + shares_sql(u, shs@.take(i + 1)));
        i = i + 1;
    }
    assert(shs@.take(n as int) =~= shs@);
}

fn push_role_filter(out: &mut Vec<QueryPiece>, u: i64, f: &Option<RecipeFilters>)
    ensures
        views(final(out)@) == views(old(out)@) + role_filter_sql(u, *f),
{
    let has_access = match f {
        Some(fs) => match &fs.access_rights {
            Some(a) => a.len() > 0,
            None => false,
        },
        None => false,
    };
    let has_shares = match f {
        Some(fs) => match &fs.share_states {
            Some(s) => s.len() > 0,
            None => false,
        },
        None => false,
    };
    if has_access || has_shares {
        let ghost mid1: Seq<PieceView>;
        let ghost mid2: Seq<PieceView>;
        push_sql(out, " AND (1=0");
        proof {
            mid1 = views(out@);
        }
        match f {
            Some(fs) => {
                match &fs.access_rights {
                    Some(a) => push_roles(out, u, a),
                    None => {},
                }
                proof {
                    mid2 = views(out@);
                }
                match &fs.share_states {
                    Some(s) => push_shares(out, u, s),
                    None => {},
                }
            },
            None => {
                proof {
                    mid2 = views(out@);
                }
            },
        }
        push_sql(out, ")");
        assert(views(out@) =~= views(old(out)@) + role_filter_sql(u, *f));
    } else {
        assert(views(out@) =~= views(old(out)@) + role_filter_sql(u, *f));
    }
}

fn push_access(out: &mut Vec<QueryPiece>, u: i64)
    ensures
        views(final(out)@) == views(old(out)@) + access_sql(u),
{
    push_sql(out, " AND (r.owner_id = ");
    push_bind(out, SqlParam::Int(u));
    push_sql(out, " OR EXISTS (SELECT 1 FROM recipe_editors e WHERE e.recipe_id = r.id AND e.user_id = ");
    push_bind(out, SqlParam::Int(u));
    push_sql(out, ")");
    push_sql(out, " OR EXISTS (SELECT 1 FROM recipe_viewers v WHERE v.recipe_id = r.id AND v.user_id = ");
    push_bind(out, SqlParam::Int(u));
    push_sql(out, "))");
    assert(views(out@) =~= views(old(out)@) + access_sql(u));
}

fn push_all_of(out: &mut Vec<QueryPiece>, prefix: &str, ids: SqlParam, n: usize)
    ensures
        views(final(out)@) == views(old(out)@) + all_of_sql(prefix, ids@, n as nat),
{
    push_sql(out, prefix);
    push_bind(out, ids);
    push_sql(out, ")) = ");
    let count = u64_to_decimal(n as u64);
    let ghost before = views(out@);
    out.push(QueryPiece::Sql(count));
    assert(views(out@) =~= before.push(PieceView::Sql(decimal(n as nat))));
    assert(views(out@) =~= views(old(out)@) + all_of_sql(prefix, ids@, n as nat));
}

fn push_content_filters(out: &mut Vec<QueryPiece>, f: Option<RecipeFilters>)
    ensures
        views(final(out)@) == views(old(out)@) + content_filter_sql(f),
{
    match f {
        Some(fs) => {
            let ghost g = fs;
            let ghost s0 = views(out@);
            match fs.categories {
                Some(c) => {
                    if c.len() > 0 {
                        let n = c.len();
                        push_all_of(
                            out,
                            " AND (SELECT count(DISTINCT ucr.category_id) FROM user_category_recipes ucr WHERE ucr.recipe_id = r.id AND ucr.category_id = ANY(",
                            SqlParam::IntList(c),
                            n,
                        );
                    }
                },
                None => {},
            }
            assert(views(out@) =~= s0 + categories_sql(g));
            let ghost s1 = views(out@);
            match fs.tags {
                Some(t) => {
                    if t.len() > 0 {
                        let n = t.len();
                        push_all_of(
                            out,
                            " AND (SELECT count(DISTINCT rt.tag_id) FROM recipe_tags rt WHERE rt.recipe_id = r.id AND rt.tag_id = ANY(",
                            SqlParam::TextList(t),
                            n,
                        );
                    }
                },
                None => {},
            }
            assert(views(out@) =~= s1 + tags_sql(g));
            let ghost s2 = views(out@);
            match fs.ingredients {
                Some(i) => {
                    if i.len() > 0 {
                        let n = i.len();
                        push_all_of(
                            out,
                            " AND (SELECT count(DISTINCT ri.ingredient_id) FROM sections s JOIN recipe_ingredients ri ON s.id = ri.section_id WHERE s.recipe_id = r.id AND ri.ingredient_id = ANY(",
                            SqlParam::IntList(i),
                            n,
                        );
                    }
                },
                None => {},
            }
            assert(views(out@) =~= s2 + ingredients_sql(g));
            let ghost s3 = views(out@);
            match fs.max_work_time {
                Some(m) => {
                    push_sql(out, " AND r.work_minutes <= ");
                    push_bind(out, SqlParam::Int32(m));
                },
                None => {},
            }
            assert(views(out@) =~= s3 + max_work_sql(g));
            assert(views(out@) =~= views(old(out)@) + content_filter_sql(f));
        },
        None => {
            assert(views(out@) =~= views(old(out)@) + content_filter_sql(f));
        },
    }
}

fn push_order(out: &mut Vec<QueryPiece>, s: &Option<RecipeSort>)
    ensures
        views(final(out)@) == views(old(out)@) + order_sql(*s),
{
    match s {
        Some(srt) => {
            let dir = if srt.order == Order::Desc {
                "DESC NULLS LAST"
            } else {
                "ASC NULLS LAST"
            };
            let f = srt.field.as_str();
            if str_eq(f, "name") {
                push_sql(out, " ORDER BY r.name ");
                push_sql(out, dir);
            } else if str_eq(f, "worktime") || str_eq(f, "work_time") {
                push_sql(out, " ORDER BY r.work_minutes ");
                push_sql(out, dir);
            } else if str_eq(f, "totaltime") || str_eq(f, "total_time") {
                push_sql(out, " ORDER BY r.overall_minutes ");
                push_sql(out, dir);
            } else if str_eq(f, "rating") {
                push_sql(out, " ORDER BY avg_rating ");
                push_sql(out, dir);
            } else {
                push_sql(out, " ORDER BY r.id ASC");
            }
        },
        None => {
            push_sql(out, " ORDER BY r.id ASC");
        },
    }
    assert(views(out@) =~= views(old(out)@) + order_sql(*s));
}

fn push_page(out: &mut Vec<QueryPiece>, w: PageWindow)
    requires
        w.limit < i64::MAX,
    ensures
        views(final(out)@) == views(old(out)@) + page_sql(w),
{
    push_sql(out, " LIMIT ");
    push_bind(out, SqlParam::Int(w.limit + 1));
    push_sql(out, " OFFSET ");
    push_bind(out, SqlParam::Int(w.offset));
    assert(views(out@) =~= views(old(out)@) + page_sql(w));
}

/// The search of `POST /recipes/search` (and of the plain listing, with an
/// empty query) for `user_id` within window `w`, as SQL text and bound
/// values in order.
pub fn recipe_search_plan(user_id: i32, w: PageWindow, q: RecipeSearchQuery) -> (ps: Vec<
    QueryPiece,
>)
    requires
        w.limit < i64::MAX,
    ensures
        views(ps@) == search_sql(user_id as i64, w, q),
{
    let ghost q0 = q;
    let u = user_id as i64;
    let mut out: Vec<QueryPiece> = Vec::new();
    assert(views(out@) =~= Seq::<PieceView>::empty());
    push_select(&mut out);
    push_role_filter(&mut out, u, &q.filters);
    push_access(&mut out, u);
    let RecipeSearchQuery { filters, sort } = q;
    push_content_filters(&mut out, filters);
    push_order(&mut out, &sort);
    push_page(&mut out, w);
    assert(views(out@) =~= search_sql(user_id as i64, w, q0));
    out
}


/// Every search, whatever its filters and sort, keeps only recipes that the
/// user owns, edits or views: the access condition follows the selection
/// (and the optional role filter) unconditionally, before anything else.
pub proof fn lemma_search_is_scoped_to_user(user: i64, w: PageWindow, q: RecipeSearchQuery)
    ensures
        ({
            let k = select_sql().len() + role_filter_sql(user, q.filters).len();
            &&& search_sql(user, w, q).subrange(k as int, (k + access_sql(user).len()) as int) == access_sql(user)
            &&& search_sql(user, w, q).subrange(0, select_sql().len() as int) == select_sql()
        }),
{
    let k = select_sql().len() + role_filter_sql(user, q.filters).len();
    let all = search_sql(user, w, q);
    assert(all.subrange(k as int, (k + access_sql(user).len()) as int) =~= access_sql(user));
    assert(all.subrange(0, select_sql().len() as int) =~= select_sql());
}

/// The listing returns at most `limit` rows: when the extra row fetched
/// beyond the page is present, it is dropped.
pub open spec fn has_next_page(fetched: nat, limit: i64) -> bool {
    fetched > (limit as usize) as nat
}

pub open spec fn page_data<T>(fetched: Seq<T>, limit: i64) -> Seq<T> {
    if has_next_page(fetched.len(), limit) {
        fetched.drop_last()
    } else {
        fetched
    }
}

/// The page answered for the rows fetched in window `w`: when there are
/// more rows than the page size, the last is dropped and the cursor is the
/// next page number in decimal; otherwise all rows and no cursor.
pub fn finish_page<T>(fetched: Vec<T>, w: PageWindow) -> (r: PaginatedResponse<T>)
    requires
        w.page >= 1,
        has_next_page(fetched@.len(), w.limit) ==> w.page < i64::MAX,
    ensures
        r.data@ == page_data(fetched@, w.limit),
        has_next_page(fetched@.len(), w.limit) ==> (r.cursor matches Some(c) && c@ == decimal(
            (w.page + 1) as nat,
        )),
        !has_next_page(fetched@.len(), w.limit) ==> r.cursor is None,
{
    let mut data = fetched;
    let more = data.len() > w.limit as usize;
    if more {
        data.pop();
        let next = (w.page + 1) as u64;
        PaginatedResponse { data, cursor: Some(u64_to_decimal(next)) }
    } else {
        PaginatedResponse { data, cursor: None }
    }
}

/// The rows of `all` from position `from` on, at most `count` of them
/// (none when `from` is past the end).
pub open spec fn window_rows<T>(all: Seq<T>, from: int, count: int) -> Seq<T> {
    if from >= all.len() {
        Seq::empty()
    } else if from + count < all.len() {
        all.subrange(from, from + count)
    } else {
        all.subrange(from, all.len() as int)
    }
}

/// Paging through a listing: when the rows fetched for a window are the
/// listing's rows from the offset on (page size plus one), the page holds
/// exactly the listing's rows of that window, and a cursor is given exactly
/// when rows remain after it; an offset past the end gives an empty page
/// and no cursor (page sizes are at most 100, see `page_window`).
pub proof fn lemma_page_is_window_of_listing<T>(all: Seq<T>, limit: i64, offset: int)
    requires
        0 < limit <= 100,
        0 <= offset,
    ensures
        page_data(window_rows(all, offset, limit + 1), limit) == window_rows(all, offset, limit as int),
        has_next_page(window_rows(all, offset, limit + 1).len(), limit) <==> offset + limit < all.len(),
{
    let fetched = window_rows(all, offset, limit + 1);
    assert((limit as usize) as nat == limit);
    if offset < all.len() && has_next_page(fetched.len(), limit) {
        assert(fetched.drop_last() =~= window_rows(all, offset, limit as int));
    } else if offset < all.len() {
        assert(fetched =~= window_rows(all, offset, limit as int));
    }
}


/// Cursor paging: the cursor answered with page `w.page` (the next page's
/// number in decimal, see `finish_page`), sent back as `cursor` with no page
/// number, asks for the next page.
pub proof fn lemma_cursor_selects_next_page(w: PageWindow, q: PaginationQuery)
    requires
        1 <= w.page < i64::MAX,
        q.page is None,
        q.cursor matches Some(c) && c@ == decimal((w.page + 1) as nat),
    ensures
        window_page(q) == w.page + 1,
{
    lemma_decimal_digits((w.page + 1) as nat);
}


/// The search a request asks for: its body, or the empty search (no
/// filters, id order) when it has none, as the plain listing uses.
pub fn search_query_of(body: Option<RecipeSearchQuery>) -> (q: RecipeSearchQuery)
    ensures
        body matches Some(b) ==> q == b,
        body is None ==> q.filters is None && q.sort is None,
{
    match body {
        Some(b) => b,
        None => RecipeSearchQuery::default(),
    }
}

/// A search without filters or sort (a search with no body, or the plain
/// listing) is the selection, the access condition, id order and the page.
pub proof fn lemma_empty_search_is_listing(user: i64, w: PageWindow, q: RecipeSearchQuery)
    requires
        q.filters is None,
        q.sort is None,
    ensures
        search_sql(user, w, q) == select_sql() + access_sql(user) + seq![sql(" ORDER BY r.id ASC")]
            + page_sql(w),
{
    assert(role_filter_sql(user, q.filters) =~= Seq::<PieceView>::empty());
    assert(search_sql(user, w, q) =~= select_sql() + access_sql(user) + seq![sql(" ORDER BY r.id ASC")]
        + page_sql(w));
}


/// The only filter of `q` is the single share state `st`.
pub open spec fn only_share_filter(q: RecipeSearchQuery, st: RecipeShareState) -> bool {
    &&& q.filters matches Some(f)
    &&& f.share_states matches Some(s) && s@ == seq![st]
    &&& (f.access_rights is None || (f.access_rights matches Some(a) && a@.len() == 0))
}

/// Share-state filters follow the collaboration states: right after the
/// selection, a search filtered by one share state asks for recipes that
/// are private (owned by the user, with no editor and no viewer), shared
/// (some viewer and no editor) or collaborative (some editor).
pub proof fn lemma_share_filters_follow_collaboration_states(
    user: i64,
    w: PageWindow,
    q: RecipeSearchQuery,
    st: RecipeShareState,
)
    requires
        only_share_filter(q, st),
    ensures
        ({
            let ps = search_sql(user, w, q);
            let k = select_sql().len() as int;
            let no_editor = sql(" AND NOT EXISTS (SELECT 1 FROM recipe_editors WHERE recipe_id = r.id)");
            let no_viewer = sql(" AND NOT EXISTS (SELECT 1 FROM recipe_viewers WHERE recipe_id = r.id)");
            &&& ps[k] == sql(" AND (1=0")
            &&& st == RecipeShareState::Private ==> ps.subrange(k + 1, k + 7) == seq![
                sql(" OR (r.owner_id = "),
                bind_int(user),
                no_editor,
                no_viewer,
                sql(")"),
                sql(")"),
            ]
            &&& st == RecipeShareState::Shared ==> ps.subrange(k + 1, k + 5) == seq![
                sql(" OR (EXISTS (SELECT 1 FROM recipe_viewers WHERE recipe_id = r.id)"),
                no_editor,
                sql(")"),
                sql(")"),
            ]
            &&& st == RecipeShareState::Collaborative ==> ps.subrange(k + 1, k + 3) == seq![
                sql(" OR EXISTS (SELECT 1 FROM recipe_editors WHERE recipe_id = r.id)"),
                sql(")"),
            ]
        }),
{
    let f = q.filters->0;
    let sts = f.share_states->0@;
    assert(sts.drop_last() =~= Seq::<RecipeShareState>::empty());
    assert(shares_sql(user, sts.drop_last()) =~= Seq::<PieceView>::empty());
    assert(sts.last() == st);
    assert(shares_sql(user, sts) =~= share_sql(user, st));
    let rf = role_filter_sql(user, q.filters);
    assert(rf =~= seq![sql(" AND (1=0")] + share_sql(user, st) + seq![sql(")")]);
    let ps = search_sql(user, w, q);
    let k = select_sql().len() as int;
    assert forall|i: int| 0 <= i < rf.len() implies ps[k + i] == rf[i] by {}
    if st == RecipeShareState::Private {
        assert(ps.subrange(k + 1, k + 7) =~= rf.subrange(1, 7));
    } else if st == RecipeShareState::Shared {
        assert(ps.subrange(k + 1, k + 5) =~= rf.subrange(1, 5));
    } else {
        assert(ps.subrange(k + 1, k + 3) =~= rf.subrange(1, 3));
    }
}

/// The sort direction follows the requested order for every recognised
/// key: just before the page come the key's column and `ASC NULLS LAST`
/// for an ascending or `DESC NULLS LAST` for a descending sort; any other
/// key sorts by id, ascending.
pub proof fn lemma_sort_direction_follows_order(user: i64, w: PageWindow, q: RecipeSearchQuery, s: RecipeSort)
    requires
        q.sort == Some(s),
    ensures
        ({
            let ps = search_sql(user, w, q);
            let n = ps.len() as int;
            let f = s.field@;
            let dir = if s.order == Order::Asc {
                sql("ASC NULLS LAST")
            } else {
                sql("DESC NULLS LAST")
            };
            &&& f == "name"@ ==> ps[n - 6] == sql(" ORDER BY r.name ") && ps[n - 5] == dir
            &&& (f == "worktime"@ || f == "work_time"@) ==> ps[n - 6] == sql(" ORDER BY r.work_minutes ")
                && ps[n - 5] == dir
            &&& (f == "totaltime"@ || f == "total_time"@) ==> ps[n - 6] == sql(
                " ORDER BY r.overall_minutes ",
            ) && ps[n - 5] == dir
            &&& f == "rating"@ ==> ps[n - 6] == sql(" ORDER BY avg_rating ") && ps[n - 5] == dir
            &&& !(f == "name"@ || f == "worktime"@ || f == "work_time"@ || f == "totaltime"@ || f
                == "total_time"@ || f == "rating"@) ==> ps[n - 5] == sql(" ORDER BY r.id ASC")
        }),
{
    reveal_strlit("name");
    reveal_strlit("worktime");
    reveal_strlit("work_time");
    reveal_strlit("totaltime");
    reveal_strlit("total_time");
    reveal_strlit("rating");
    let ps = search_sql(user, w, q);
    let o = order_sql(q.sort);
    let pg = page_sql(w);
    let pre = select_sql() + role_filter_sql(user, q.filters) + access_sql(user) + content_filter_sql(
        q.filters,
    );
    assert(ps =~= pre + o + pg);
    let n = ps.len() as int;
    let f = s.field@;
    let dir = if s.order == Order::Asc {
        sql("ASC NULLS LAST")
    } else {
        sql("DESC NULLS LAST")
    };
    assert(direction_sql(s.order) == dir);
    assert("name"@.len() == 4 && "name"@[0] == 'n');
    assert("worktime"@.len() == 8 && "worktime"@[0] == 'w');
    assert("work_time"@.len() == 9 && "work_time"@[0] == 'w');
    assert("totaltime"@.len() == 9 && "totaltime"@[0] == 't');
    assert("total_time"@.len() == 10 && "total_time"@[0] == 't');
    assert("rating"@.len() == 6 && "rating"@[0] == 'r');
    assert("name"@ != "worktime"@ && "name"@ != "work_time"@ && "name"@ != "totaltime"@
        && "name"@ != "total_time"@ && "name"@ != "rating"@);
    assert("worktime"@ != "totaltime"@ && "worktime"@ != "total_time"@ && "worktime"@ != "rating"@);
    assert("work_time"@ != "totaltime"@ && "work_time"@ != "total_time"@ && "work_time"@
        != "rating"@);
    assert("totaltime"@ != "rating"@ && "total_time"@ != "rating"@);
    assert(pg.len() == 4);
    if o.len() == 2 {
        assert(ps[n - 6] == o[0]);
        assert(ps[n - 5] == o[1]);
    } else {
        assert(ps[n - 5] == o[0]);
    }
}


/// Every search keeps only recipes the user may view: after the selection
/// and any role filter comes the condition that the user owns the recipe,
/// or has an editor row, or has a viewer row for it.
pub proof fn lemma_search_access_condition(user: i64, w: PageWindow, q: RecipeSearchQuery)
    ensures
        ({
            let ps = search_sql(user, w, q);
            let k = (select_sql().len() + role_filter_sql(user, q.filters).len()) as int;
            ps.subrange(k, k + 8) == seq![
                sql(" AND (r.owner_id = "),
                bind_int(user),
                sql(" OR EXISTS (SELECT 1 FROM recipe_editors e WHERE e.recipe_id = r.id AND e.user_id = "),
                bind_int(user),
                sql(")"),
                sql(" OR EXISTS (SELECT 1 FROM recipe_viewers v WHERE v.recipe_id = r.id AND v.user_id = "),
                bind_int(user),
                sql("))"),
            ]
        }),
{
    lemma_search_is_scoped_to_user(user, w, q);
}

/// The only filter of `q` is the single role `a`.
pub open spec fn only_role_filter(q: RecipeSearchQuery, a: RecipeAccessRights) -> bool {
    &&& q.filters matches Some(f)
    &&& f.access_rights matches Some(r) && r@ == seq![a]
    &&& (f.share_states is None || (f.share_states matches Some(s) && s@.len() == 0))
}

/// Role filters select by the user's role on the recipe: right after the
/// selection, a search filtered by one role asks for recipes the user owns,
/// edits (an editor row for the user) or views (a viewer row for the user).
pub proof fn lemma_role_filters_follow_roles(user: i64, w: PageWindow, q: RecipeSearchQuery, a: RecipeAccessRights)
    requires
        only_role_filter(q, a),
    ensures
        ({
            let ps = search_sql(user, w, q);
            let k = select_sql().len() as int;
            &&& ps[k] == sql(" AND (1=0")
            &&& a == RecipeAccessRights::Owner ==> ps.subrange(k + 1, k + 4) == seq![
                sql(" OR r.owner_id = "),
                bind_int(user),
                sql(")"),
            ]
            &&& a == RecipeAccessRights::Editor ==> ps.subrange(k + 1, k + 5) == seq![
                sql(" OR EXISTS (SELECT 1 FROM recipe_editors e WHERE e.recipe_id = r.id AND e.user_id = "),
                bind_int(user),
                sql(")"),
                sql(")"),
            ]
            &&& a == RecipeAccessRights::Viewer ==> ps.subrange(k + 1, k + 5) == seq![
                sql(" OR EXISTS (SELECT 1 FROM recipe_viewers v WHERE v.recipe_id = r.id AND v.user_id = "),
                bind_int(user),
                sql(")"),
                sql(")"),
            ]
        }),
{
    let f = q.filters->0;
    let rs = f.access_rights->0@;
    assert(rs.drop_last() =~= Seq::<RecipeAccessRights>::empty());
    assert(roles_sql(user, rs.drop_last()) =~= Seq::<PieceView>::empty());
    assert(rs.last() == a);
    assert(roles_sql(user, rs) =~= role_sql(user, a));
    let s = match f.share_states {
        Some(s) => shares_sql(user, s@),
        None => seq![],
    };
    assert(s =~= Seq::<PieceView>::empty());
    let rf = role_filter_sql(user, q.filters);
    assert(rf =~= seq![sql(" AND (1=0")] + role_sql(user, a) + seq![sql(")")]);
    let ps = search_sql(user, w, q);
    let k = select_sql().len() as int;
    assert forall|i: int| 0 <= i < rf.len() implies ps[k + i] == rf[i] by {}
    if a == RecipeAccessRights::Owner {
        assert(ps.subrange(k + 1, k + 4) =~= rf.subrange(1, 4));
    } else {
        assert(ps.subrange(k + 1, k + 5) =~= rf.subrange(1, 5));
    }
}

/// Every search ends with its window: one row more than the page size, from
/// the window's offset.
pub proof fn lemma_search_ends_with_window(user: i64, w: PageWindow, q: RecipeSearchQuery)
    ensures
        ({
            let ps = search_sql(user, w, q);
            let n = ps.len() as int;
            ps.subrange(n - 4, n) == seq![
                sql(" LIMIT "),
                bind_int((w.limit + 1) as i64),
                sql(" OFFSET "),
                bind_int(w.offset),
            ]
        }),
{
    let ps = search_sql(user, w, q);
    let n = ps.len() as int;
    assert(ps.subrange(n - 4, n) =~= page_sql(w));
}

/// The page size and page of a listing: 20 rows unless a size is given,
/// never more than 100; the first page unless a page (or a cursor) is
/// given, never before the first; the offset skips the rows of the pages
/// before.
pub proof fn lemma_window_defaults_and_caps(q: PaginationQuery)
    ensures
        q.limit is None ==> window_limit(q) == 20,
        q.limit matches Some(l) ==> (l <= 100 ==> window_limit(q) == l),
        q.limit matches Some(l) ==> (l > 100 ==> window_limit(q) == 100),
        q.page is None && q.cursor is None ==> window_page(q) == 1,
        q.page matches Some(p) ==> (p >= 1 ==> window_page(q) == p),
        q.page matches Some(p) ==> (p < 1 ==> window_page(q) == 1),
        window_offset(q) == (window_page(q) - 1) * window_limit(q),
{
}


/// Content filters ask for all of the given items: right after the access
/// condition, a search with only a category filter counts the distinct
/// given categories of the recipe and asks for all of them (likewise tags
/// and ingredients), and a work-time filter asks for at most that many
/// minutes of work.
pub proof fn lemma_content_filters_require_all_items(user: i64, w: PageWindow, q: RecipeSearchQuery, f: RecipeFilters)
    requires
        q.filters == Some(f),
        f.access_rights is None,
        f.share_states is None,
    ensures
        ({
            let ps = search_sql(user, w, q);
            let k = select_sql().len() + 8int;
            &&& f.categories matches Some(c) ==> (c@.len() > 0 && f.tags is None && f.ingredients is None
                ==> ps.subrange(k, k + 4) == seq![
                sql(
                    " AND (SELECT count(DISTINCT ucr.category_id) FROM user_category_recipes ucr WHERE ucr.recipe_id = r.id AND ucr.category_id = ANY(",
                ),
                PieceView::Bind(ParamView::IntList(c@)),
                sql(")) = "),
                PieceView::Sql(decimal(c@.len())),
            ])
            &&& f.tags matches Some(t) ==> (t@.len() > 0 && f.categories is None && f.ingredients is None
                ==> ps.subrange(k, k + 4) == seq![
                sql(
                    " AND (SELECT count(DISTINCT rt.tag_id) FROM recipe_tags rt WHERE rt.recipe_id = r.id AND rt.tag_id = ANY(",
                ),
                PieceView::Bind(ParamView::TextList(t@.map_values(|s: String| s@))),
                sql(")) = "),
                PieceView::Sql(decimal(t@.len())),
            ])
            &&& f.ingredients matches Some(g) ==> (g@.len() > 0 && f.categories is None && f.tags is None
                ==> ps.subrange(k, k + 4) == seq![
                sql(
                    " AND (SELECT count(DISTINCT ri.ingredient_id) FROM sections s JOIN recipe_ingredients ri ON s.id = ri.section_id WHERE s.recipe_id = r.id AND ri.ingredient_id = ANY(",
                ),
                PieceView::Bind(ParamView::IntList(g@)),
                sql(")) = "),
                PieceView::Sql(decimal(g@.len())),
            ])
            &&& f.max_work_time matches Some(m) ==> (f.categories is None && f.tags is None
                && f.ingredients is None ==> ps.subrange(k, k + 2) == seq![
                sql(" AND r.work_minutes <= "),
                PieceView::Bind(ParamView::Int32(m)),
            ])
        }),
{
    let ps = search_sql(user, w, q);
    let k = select_sql().len() + 8int;
    assert(role_filter_sql(user, q.filters) =~= Seq::<PieceView>::empty());
    let cf = content_filter_sql(q.filters);
    assert(ps =~= select_sql() + access_sql(user) + cf + order_sql(q.sort) + page_sql(w));
    assert forall|i: int| 0 <= i < cf.len() implies ps[k + i] == cf[i] by {}
    if cf.len() >= 4 {
        assert(ps.subrange(k, k + 4) =~= cf.subrange(0, 4));
    }
    if cf.len() >= 2 {
        assert(ps.subrange(k, k + 2) =~= cf.subrange(0, 2));
    }
}

} // verus!
