use foodly_backend::api::categories::{
    category_from_row, category_recipe_positions, check_recipes_accessible, created_category,
    next_sort_order, reorder_assignments, reorder_response, require_category, validate_category,
    plan_category_recipes, CategoryRecipesPlan, CategoryRow,
};
use foodly_backend::error::AppError;
use foodly_backend::models::category::{CategoryOrderPair, CreateCategory};

fn payload(name: &str, color: &str) -> CreateCategory {
    CreateCategory {
        name: name.to_string(),
        color: color.to_string(),
        color_light: None,
        color_dark: None,
    }
}

fn message(r: Result<(), AppError>) -> String {
    match r {
        Err(AppError::Unprocessable(m)) => m,
        Err(AppError::NotFound(m)) => m,
        _ => panic!("expected an error with a message"),
    }
}

#[test]
fn category_payload_checks() {
    assert!(validate_category(&payload("Test Cat", "#ff0000")).is_ok());
    assert_eq!(message(validate_category(&payload("", "#ff0000"))), "Name cannot be empty");
    assert_eq!(message(validate_category(&payload("", ""))), "Name cannot be empty");
    assert_eq!(message(validate_category(&payload("Cat", ""))), "Color cannot be empty");
}

#[test]
fn new_categories_go_last() {
    // the first category gets order 0, the next one order 1
    assert_eq!(next_sort_order(None), 0);
    assert_eq!(next_sort_order(Some(0)), 1);
    assert_eq!(next_sort_order(Some(-1)), 0);
}

#[test]
fn created_category_has_no_recipes() {
    let c = created_category(12, 3, Some(1), payload("Test Cat 2", "#00ff00"));
    assert_eq!(c.id, 12);
    assert_eq!(c.user, 3);
    assert_eq!(c.name, "Test Cat 2");
    assert_eq!(c.order, 1);
    assert!(c.recipes.is_empty());
    assert_eq!(created_category(1, 1, None, payload("a", "b")).order, 0);
}

#[test]
fn category_rows_are_mapped() {
    let c = category_from_row(CategoryRow {
        id: 4,
        user_id: 2,
        name: "Favoriten".to_string(),
        sort_order: None,
        color: "#e11d48".to_string(),
        color_light: Some("#ffffff".to_string()),
        color_dark: None,
        recipes: vec![1, 6, 8, 13],
    });
    assert_eq!(c.id, 4);
    assert_eq!(c.user, 2);
    assert_eq!(c.recipes, vec![1, 6, 8, 13]);
    assert_eq!(c.order, 0);
    assert_eq!(c.color_light, Some("#ffffff".to_string()));
}

#[test]
fn missing_category_is_not_found() {
    assert!(require_category(true).is_ok());
    assert_eq!(message(require_category(false)), "Category not found");
}

#[test]
fn all_assigned_recipes_must_be_accessible() {
    assert!(check_recipes_accessible(2, Some(2)).is_ok());
    assert!(check_recipes_accessible(0, None).is_ok());
    assert_eq!(
        message(check_recipes_accessible(2, Some(1))),
        "One or more recipes not accessible"
    );
    assert_eq!(
        message(check_recipes_accessible(1, None)),
        "One or more recipes not accessible"
    );
}

#[test]
fn category_recipes_keep_their_order() {
    assert_eq!(
        category_recipe_positions(&vec![8, 1, 13]),
        vec![(8, 0), (1, 1), (13, 2)]
    );
}

#[test]
fn reorder_gives_request_positions() {
    let (c1, c2) = (10, 20);
    let pairs = reorder_assignments(&vec![c2, c1]);
    let res = reorder_response(pairs, &vec![true, true]);
    assert_eq!(res.data.len(), 2);
    assert_eq!(res.data[0], CategoryOrderPair { id: c2, order: 0 });
    assert_eq!(res.data[1], CategoryOrderPair { id: c1, order: 1 });
}

#[test]
fn reorder_skips_categories_of_others() {
    let pairs = reorder_assignments(&vec![3, 1, 2, 4]);
    let res = reorder_response(pairs, &vec![true, false, true, true]);
    assert_eq!(
        res.data,
        vec![
            CategoryOrderPair { id: 3, order: 0 },
            CategoryOrderPair { id: 2, order: 2 },
            CategoryOrderPair { id: 4, order: 3 },
        ]
    );
}

#[test]
fn empty_recipe_list_only_clears() {
    assert!(matches!(plan_category_recipes(&vec![]), CategoryRecipesPlan::Clear));
    match plan_category_recipes(&vec![9, 4]) {
        CategoryRecipesPlan::CheckThenSet(rows) => assert_eq!(rows, vec![(9, 0), (4, 1)]),
        CategoryRecipesPlan::Clear => panic!("expected a check"),
    }
}
