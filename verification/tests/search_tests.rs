use foodly_backend::api::search::{
    finish_page, page_window, recipe_search_plan, search_query_of, window_fits, PageWindow, PaginationQuery,
    QueryPiece, SqlParam,
};
use foodly_backend::models::recipe::{
    Order, RecipeAccessRights, RecipeFilters, RecipeSearchQuery, RecipeShareState, RecipeSort,
};

/// Renders the pieces as Postgres text, numbering placeholders `$1`, `$2`, ...
fn render(pieces: &[QueryPiece]) -> (String, Vec<String>) {
    let mut sql = String::new();
    let mut binds = Vec::new();
    for p in pieces {
        match p {
            QueryPiece::Sql(s) => sql.push_str(s),
            QueryPiece::Bind(b) => {
                binds.push(format!("{:?}", b));
                sql.push_str(&format!("${}", binds.len()));
            }
        }
    }
    (sql, binds)
}

fn no_filters() -> RecipeFilters {
    RecipeFilters {
        categories: None,
        tags: None,
        ingredients: None,
        max_work_time: None,
        access_rights: None,
        share_states: None,
    }
}

fn window(limit: i64, page: i64) -> PageWindow {
    page_window(PaginationQuery { page: Some(page), limit: Some(limit), cursor: None })
}

#[test]
fn default_window() {
    let w = page_window(PaginationQuery { page: None, limit: None, cursor: None });
    assert_eq!((w.limit, w.page, w.offset), (20, 1, 0));
}

#[test]
fn window_is_capped_and_clamped() {
    let w = page_window(PaginationQuery { page: Some(0), limit: Some(500), cursor: None });
    assert_eq!((w.limit, w.page, w.offset), (100, 1, 0));
    let w = page_window(PaginationQuery { page: Some(3), limit: Some(10), cursor: None });
    assert_eq!((w.limit, w.page, w.offset), (10, 3, 20));
}

#[test]
fn pages_of_a_listing_of_25() {
    let all: Vec<i32> = (1..=25).collect();
    let fetch = |w: PageWindow| -> Vec<i32> {
        all.iter()
            .skip(w.offset as usize)
            .take((w.limit + 1) as usize)
            .cloned()
            .collect()
    };
    let w1 = window(10, 1);
    let p1 = finish_page(fetch(w1), w1);
    assert_eq!(p1.data.len(), 10);
    assert_eq!(p1.cursor, Some("2".to_string()));
    let w2 = window(10, 2);
    let p2 = finish_page(fetch(w2), w2);
    assert_eq!(p2.data.len(), 10);
    assert_eq!(p2.data[0], 11);
    assert_eq!(p2.cursor, Some("3".to_string()));
    let w3 = window(10, 3);
    let p3 = finish_page(fetch(w3), w3);
    assert_eq!(p3.data.len(), 5);
    assert_eq!(p3.cursor, None);
}

#[test]
fn cursor_is_rendered_in_decimal() {
    let w = window(1, 123);
    let p = finish_page(vec![1, 2], w);
    assert_eq!(p.data, vec![1]);
    assert_eq!(p.cursor, Some("124".to_string()));
}

#[test]
fn plain_listing_query() {
    let pieces = recipe_search_plan(7, window(20, 1), RecipeSearchQuery::default());
    let (sql, binds) = render(&pieces);
    assert!(sql.contains("FROM recipes r"));
    assert!(sql.ends_with(
        " AND (r.owner_id = $1 OR EXISTS (SELECT 1 FROM recipe_editors e WHERE e.recipe_id = r.id AND e.user_id = $2) OR EXISTS (SELECT 1 FROM recipe_viewers v WHERE v.recipe_id = r.id AND v.user_id = $3)) ORDER BY r.id ASC LIMIT $4 OFFSET $5"
    ));
    assert_eq!(binds, vec!["Int(7)", "Int(7)", "Int(7)", "Int(21)", "Int(0)"]);
}

#[test]
fn max_work_time_filter() {
    let mut f = no_filters();
    f.max_work_time = Some(30);
    let q = RecipeSearchQuery { filters: Some(f), sort: None };
    let (sql, binds) = render(&recipe_search_plan(7, window(20, 1), q));
    assert!(sql.contains(" AND r.work_minutes <= $4 ORDER BY r.id ASC"));
    assert_eq!(binds[3], "Int32(30)");
}

#[test]
fn role_and_share_filters() {
    let mut f = no_filters();
    f.access_rights = Some(vec![RecipeAccessRights::Owner, RecipeAccessRights::Viewer]);
    f.share_states = Some(vec![RecipeShareState::Shared]);
    let q = RecipeSearchQuery { filters: Some(f), sort: None };
    let (sql, _) = render(&recipe_search_plan(7, window(20, 1), q));
    assert!(sql.contains(
        " AND (1=0 OR r.owner_id = $1 OR EXISTS (SELECT 1 FROM recipe_viewers v WHERE v.recipe_id = r.id AND v.user_id = $2) OR (EXISTS (SELECT 1 FROM recipe_viewers WHERE recipe_id = r.id) AND NOT EXISTS (SELECT 1 FROM recipe_editors WHERE recipe_id = r.id))) AND (r.owner_id = $3"
    ));
}

#[test]
fn empty_role_filters_add_nothing() {
    let mut f = no_filters();
    f.access_rights = Some(vec![]);
    let q = RecipeSearchQuery { filters: Some(f), sort: None };
    let (sql, _) = render(&recipe_search_plan(7, window(20, 1), q));
    assert!(!sql.contains("1=0"));
}

#[test]
fn list_filters_require_all_items() {
    let mut f = no_filters();
    f.tags = Some(vec!["Vegan".to_string(), "Hauptgericht".to_string()]);
    f.categories = Some(vec![4]);
    let q = RecipeSearchQuery { filters: Some(f), sort: None };
    let pieces = recipe_search_plan(7, window(20, 1), q);
    let (sql, binds) = render(&pieces);
    assert!(sql.contains("ucr.category_id = ANY($4)) = 1"));
    assert!(sql.contains("rt.tag_id = ANY($5)) = 2"));
    assert_eq!(binds[3], "IntList([4])");
    assert_eq!(binds[4], "TextList([\"Vegan\", \"Hauptgericht\"])");
}

#[test]
fn sort_orders() {
    let q = |field: &str, order: Order| RecipeSearchQuery {
        filters: None,
        sort: Some(RecipeSort { field: field.to_string(), order }),
    };
    let (sql, _) = render(&recipe_search_plan(7, window(20, 1), q("name", Order::Desc)));
    assert!(sql.contains(" ORDER BY r.name DESC NULLS LAST LIMIT"));
    let (sql, _) = render(&recipe_search_plan(7, window(20, 1), q("work_time", Order::Asc)));
    assert!(sql.contains(" ORDER BY r.work_minutes ASC NULLS LAST LIMIT"));
    let (sql, _) = render(&recipe_search_plan(7, window(20, 1), q("totaltime", Order::Asc)));
    assert!(sql.contains(" ORDER BY r.overall_minutes ASC NULLS LAST LIMIT"));
    let (sql, _) = render(&recipe_search_plan(7, window(20, 1), q("rating", Order::Desc)));
    assert!(sql.contains(" ORDER BY avg_rating DESC NULLS LAST LIMIT"));
    let (sql, _) = render(&recipe_search_plan(7, window(20, 1), q("color", Order::Desc)));
    assert!(sql.contains(" ORDER BY r.id ASC LIMIT"));
}

#[test]
fn sql_params_are_plain_values() {
    let p = SqlParam::Int(3);
    assert_eq!(format!("{:?}", p), "Int(3)");
}

#[test]
fn cursor_of_a_page_selects_the_next() {
    let w = window(10, 2);
    let page = finish_page((0..11).collect::<Vec<i32>>(), w);
    let cursor = page.cursor.clone().unwrap();
    assert_eq!(cursor, "3");
    let next = page_window(PaginationQuery { page: None, limit: Some(10), cursor: Some(cursor) });
    assert_eq!((next.page, next.offset), (3, 20));
    let given = page_window(PaginationQuery { page: Some(5), limit: Some(10), cursor: Some("3".to_string()) });
    assert_eq!(given.page, 5);
    for bad in ["", "abc", "-2", "3x", "99999999999999999999"] {
        let w = page_window(PaginationQuery { page: None, limit: None, cursor: Some(bad.to_string()) });
        assert_eq!(w.page, 1, "cursor {:?}", bad);
    }
    let w = page_window(PaginationQuery { page: None, limit: None, cursor: Some("0".to_string()) });
    assert_eq!(w.page, 1);
}

#[test]
fn offsets_that_overflow_are_detected() {
    assert!(window_fits(&PaginationQuery { page: Some(3), limit: Some(10), cursor: None }));
    assert!(!window_fits(&PaginationQuery { page: Some(i64::MAX), limit: Some(10), cursor: None }));
    assert!(!window_fits(&PaginationQuery {
        page: None,
        limit: Some(100),
        cursor: Some(i64::MAX.to_string()),
    }));
    assert!(window_fits(&PaginationQuery { page: Some(i64::MAX), limit: Some(1), cursor: None }));
}

#[test]
fn shared_filter_excludes_recipes_with_editors() {
    let mut f = no_filters();
    f.share_states = Some(vec![RecipeShareState::Shared]);
    let q = RecipeSearchQuery { filters: Some(f), sort: None };
    let (sql, _) = render(&recipe_search_plan(7, window(20, 1), q));
    assert!(sql.contains(
        " AND (1=0 OR (EXISTS (SELECT 1 FROM recipe_viewers WHERE recipe_id = r.id) AND NOT EXISTS (SELECT 1 FROM recipe_editors WHERE recipe_id = r.id)))"
    ));
}

#[test]
fn rows_carry_their_ratings() {
    let (sql, _) = render(&recipe_search_plan(7, window(20, 1), RecipeSearchQuery { filters: None, sort: None }));
    assert!(sql.contains(" as rating_users,"));
    assert!(sql.contains(" as rating_values\n"));
}

#[test]
fn missing_body_is_the_plain_listing() {
    let q = search_query_of(None);
    assert!(q.filters.is_none() && q.sort.is_none());
    let (sql, binds) = render(&recipe_search_plan(7, window(20, 1), q));
    assert!(sql.ends_with(") ORDER BY r.id ASC LIMIT $4 OFFSET $5"));
    assert_eq!(binds.len(), 5);
    let given = RecipeSearchQuery {
        filters: None,
        sort: Some(RecipeSort { field: "name".to_string(), order: Order::Asc }),
    };
    assert!(search_query_of(Some(given)).sort.is_some());
}
