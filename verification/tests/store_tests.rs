use foodly_backend::api::search::PaginationQuery;
use foodly_backend::error::AppError;
use foodly_backend::models::recipe::{CreateRecipe, CreateRecipeIngredient, CreateSection};
use foodly_backend::store::RecipeStore;
use std::collections::HashMap;

trait Must<T> {
    fn must(self) -> T;
}

impl<T> Must<T> for Result<T, AppError> {
    fn must(self) -> T {
        match self {
            Ok(v) => v,
            Err(e) => panic!("unexpected error: {}", e.reply().message),
        }
    }
}

fn payload(name: &str) -> CreateRecipe {
    CreateRecipe {
        name: name.to_string(),
        tags: vec!["Suppe".to_string()],
        source: Some("Oma".to_string()),
        time: Some("30 min".to_string()),
        work_minutes: Some(10),
        overall_minutes: Some(30),
        size_number: Some(4),
        size_text: Some("Portionen".to_string()),
        notes: vec!["Heiß servieren".to_string()],
        main_image: Some(3),
        images: vec![3, 4],
        sections: vec![
            CreateSection {
                name: Some("Basis".to_string()),
                ingredients: vec![
                    CreateRecipeIngredient {
                        ingredient: Some(1),
                        text: None,
                        amount: Some("2".to_string()),
                        amount_prefix: None,
                        unit: None,
                    },
                    CreateRecipeIngredient {
                        ingredient: Some(99),
                        text: Some("Wasser".to_string()),
                        amount: Some("1".to_string()),
                        amount_prefix: None,
                        unit: Some("l".to_string()),
                    },
                ],
                steps: vec!["Kochen".to_string()],
            },
            CreateSection {
                name: None,
                ingredients: vec![CreateRecipeIngredient {
                    ingredient: None,
                    text: Some("Salz".to_string()),
                    amount: None,
                    amount_prefix: Some("etwas".to_string()),
                    unit: None,
                }],
                steps: vec![],
            },
        ],
    }
}

fn limit(limit: Option<i64>) -> PaginationQuery {
    PaginationQuery { page: None, limit, cursor: None }
}

fn page(page: i64, limit: i64) -> PaginationQuery {
    PaginationQuery { page: Some(page), limit: Some(limit), cursor: None }
}

fn catalog() -> HashMap<i32, String> {
    let mut m = HashMap::new();
    m.insert(1, "Kartoffel".to_string());
    m
}

#[test]
fn created_recipe_is_read_back_by_its_owner() {
    let mut store = RecipeStore::new();
    let created = store
        .create_recipe(7, payload("Kartoffelsuppe"), &catalog(), "2024-01-01T00:00:00+00:00".to_string())
        .must();
    assert_eq!(created.id, 1);
    assert_eq!(created.owner, 7);
    assert!(created.editors.is_empty() && created.viewers.is_empty() && created.rating.is_empty());
    assert_eq!(created.created_at.as_deref(), Some("2024-01-01T00:00:00+00:00"));
    assert_eq!(created.updated_at.as_deref(), Some("2024-01-01T00:00:00+00:00"));
    assert_eq!(created.sections.len(), 2);
    assert_eq!(created.sections[0].id, 1);
    assert_eq!(created.sections[1].id, 2);
    let lines: Vec<i32> = created.sections.iter().flat_map(|s| s.ingredients.iter().map(|i| i.id)).collect();
    assert_eq!(lines, vec![1, 2, 3]);
    let first = &created.sections[0].ingredients[0];
    assert_eq!(first.ingredient.as_ref().map(|r| (r.id, r.name.as_str())), Some((1, "Kartoffel")));
    assert!(created.sections[0].ingredients[1].ingredient.is_none());

    let read = store.get_recipe(1, 7).must();
    assert_eq!(read.name, "Kartoffelsuppe");
    assert_eq!(read.tags, vec!["Suppe".to_string()]);
    assert_eq!(read.images, vec![3, 4]);
    assert_eq!(read.sections[0].steps, vec!["Kochen".to_string()]);
    assert_eq!(read.sections[1].ingredients[0].amount_prefix.as_deref(), Some("etwas"));

    let second = store.create_recipe(7, payload("Zweite"), &catalog(), "t".to_string()).must();
    assert_eq!(second.id, 2);
}

#[test]
fn recipe_without_name_is_refused() {
    let mut store = RecipeStore::new();
    match store.create_recipe(7, payload(""), &catalog(), "t".to_string()) {
        Err(AppError::Unprocessable(m)) => assert_eq!(m, "Name cannot be empty"),
        _ => panic!("expected unprocessable"),
    }
    assert!(store.list_recipes(7, limit(None)).data.is_empty());
    let made = store.create_recipe(7, payload("Suppe"), &catalog(), "t".to_string()).must();
    assert_eq!(made.id, 1);
}

#[test]
fn other_users_cannot_read_change_or_delete() {
    let mut store = RecipeStore::new();
    store.create_recipe(7, payload("Suppe"), &catalog(), "t".to_string()).must();
    assert!(matches!(store.get_recipe(1, 8), Err(AppError::Forbidden)));
    assert!(matches!(
        store.update_recipe(1, 8, payload("Neu"), &catalog(), "u".to_string()),
        Err(AppError::Forbidden)
    ));
    assert!(matches!(store.delete_recipe(1, 8), Err(AppError::Forbidden)));
    assert!(matches!(store.copy_recipe(1, 8, "u".to_string()), Err(AppError::Forbidden)));
    assert_eq!(store.get_recipe(1, 7).must().name, "Suppe");
    for r in [store.get_recipe(5, 7).err(), store.delete_recipe(5, 7).err(), store.copy_recipe(5, 7, "u".to_string()).err()] {
        match r {
            Some(AppError::NotFound(m)) => assert_eq!(m, "Recipe not found"),
            _ => panic!("expected not found"),
        }
    }
    match store.update_recipe(5, 7, payload("Neu"), &catalog(), "u".to_string()) {
        Err(AppError::NotFound(m)) => assert_eq!(m, "Recipe not found"),
        _ => panic!("expected not found"),
    }
}

#[test]
fn update_keeps_identity_and_creation_time() {
    let mut store = RecipeStore::new();
    store.create_recipe(7, payload("Suppe"), &catalog(), "t1".to_string()).must();
    let mut changed = payload("Eintopf");
    changed.tags = vec![];
    changed.sections.truncate(1);
    let updated = store.update_recipe(1, 7, changed, &catalog(), "t2".to_string()).must();
    assert_eq!(updated.id, 1);
    assert_eq!(updated.owner, 7);
    assert_eq!(updated.name, "Eintopf");
    assert!(updated.tags.is_empty());
    assert_eq!(updated.sections.len(), 1);
    assert_eq!(updated.created_at.as_deref(), Some("t1"));
    assert_eq!(updated.updated_at.as_deref(), Some("t2"));
    let read = store.get_recipe(1, 7).must();
    assert_eq!(read.name, "Eintopf");
    assert_eq!(read.created_at.as_deref(), Some("t1"));
    match store.update_recipe(1, 7, payload(""), &catalog(), "t3".to_string()) {
        Err(AppError::Unprocessable(m)) => assert_eq!(m, "Name cannot be empty"),
        _ => panic!("expected unprocessable"),
    }
    assert_eq!(store.get_recipe(1, 7).must().name, "Eintopf");
}

#[test]
fn deleted_recipe_is_gone() {
    let mut store = RecipeStore::new();
    store.create_recipe(7, payload("Eins"), &catalog(), "t".to_string()).must();
    store.create_recipe(7, payload("Zwei"), &catalog(), "t".to_string()).must();
    assert!(store.delete_recipe(1, 7).is_ok());
    assert!(matches!(store.get_recipe(1, 7), Err(AppError::NotFound(_))));
    assert_eq!(store.get_recipe(2, 7).must().name, "Zwei");
    let ids: Vec<i32> = store.list_recipes(7, limit(None)).data.iter().map(|p| p.id).collect();
    assert_eq!(ids, vec![2]);
    let third = store.create_recipe(7, payload("Drei"), &catalog(), "t".to_string()).must();
    assert_eq!(third.id, 3);
}

#[test]
fn copy_belongs_to_the_copier_and_leaves_the_original() {
    let mut store = RecipeStore::new();
    store.create_recipe(7, payload("Suppe"), &catalog(), "t1".to_string()).must();
    let copy = store.copy_recipe(1, 7, "t2".to_string()).must();
    assert_eq!(copy.id, 2);
    assert_eq!(copy.owner, 7);
    assert_eq!(copy.name, "Suppe (Copy)");
    assert_eq!(copy.tags, vec!["Suppe".to_string()]);
    assert_eq!(copy.sections.len(), 2);
    assert_eq!(copy.sections[0].ingredients.len(), 2);
    assert_eq!(copy.sections[0].ingredients[0].id, 1);
    assert_eq!(copy.created_at.as_deref(), Some("t2"));
    assert_eq!(copy.updated_at.as_deref(), Some("t2"));
    let original = store.get_recipe(1, 7).must();
    assert_eq!(original.name, "Suppe");
    assert_eq!(original.created_at.as_deref(), Some("t1"));
    assert_eq!(store.get_recipe(2, 7).must().name, "Suppe (Copy)");
}

#[test]
fn listing_shows_own_recipes_in_id_order_up_to_the_limit() {
    let mut store = RecipeStore::new();
    for (user, name) in [(7, "A"), (8, "B"), (7, "C"), (7, "D")] {
        store.create_recipe(user, payload(name), &catalog(), "t".to_string()).must();
    }
    let page = store.list_recipes(7, limit(None));
    assert!(page.cursor.is_none());
    let names: Vec<&str> = page.data.iter().map(|p| p.name.as_str()).collect();
    assert_eq!(names, vec!["A", "C", "D"]);
    assert_eq!(page.data[0].tags, vec!["Suppe".to_string()]);
    assert_eq!(page.data[0].main_image, Some(3));
    let ids: Vec<i32> = store.list_recipes(7, limit(Some(2))).data.iter().map(|p| p.id).collect();
    assert_eq!(ids, vec![1, 3]);
    assert!(store.list_recipes(7, limit(Some(0))).data.is_empty());
    assert_eq!(store.list_recipes(8, limit(Some(1000))).data.len(), 1);
    assert!(store.list_recipes(9, limit(None)).data.is_empty());
}

#[test]
fn listing_is_capped_at_one_hundred() {
    let mut store = RecipeStore::new();
    let small = CreateRecipe { sections: vec![], ..payload("R") };
    for _ in 0..120 {
        store.create_recipe(1, small.clone(), &catalog(), "t".to_string()).must();
    }
    assert_eq!(store.list_recipes(1, limit(None)).data.len(), 20);
    assert_eq!(store.list_recipes(1, limit(Some(500))).data.len(), 100);
    assert_eq!(store.list_recipes(1, limit(Some(50))).data.len(), 50);
}

#[test]
fn copies_get_fresh_ids_after_deletions() {
    let mut store = RecipeStore::new();
    store.create_recipe(7, payload("Eins"), &catalog(), "t".to_string()).must();
    store.create_recipe(7, payload("Zwei"), &catalog(), "t".to_string()).must();
    store.delete_recipe(2, 7).must();
    let copy = store.copy_recipe(1, 7, "t".to_string()).must();
    assert_eq!(copy.id, 3);
    assert_eq!(store.get_recipe(1, 7).must().name, "Eins");
    assert_eq!(store.get_recipe(3, 7).must().name, "Eins (Copy)");
    assert!(matches!(store.get_recipe(2, 7), Err(AppError::NotFound(_))));
}

#[test]
fn listing_pages_with_a_cursor() {
    let mut store = RecipeStore::new();
    let small = CreateRecipe { sections: vec![], ..payload("R") };
    for k in 1..=25 {
        let p = CreateRecipe { name: format!("Recipe {}", k), ..small.clone() };
        store.create_recipe(7, p, &catalog(), "t".to_string()).must();
    }
    store.create_recipe(8, small.clone(), &catalog(), "t".to_string()).must();
    let first = store.list_recipes(7, page(1, 10));
    assert_eq!(first.data.len(), 10);
    assert_eq!(first.cursor.as_deref(), Some("2"));
    let second = store.list_recipes(7, PaginationQuery { page: None, limit: Some(10), cursor: first.cursor.clone() });
    assert_eq!(second.data[0].name, "Recipe 11");
    assert_eq!(second.cursor.as_deref(), Some("3"));
    let third = store.list_recipes(7, page(3, 10));
    let names: Vec<&str> = third.data.iter().map(|p| p.name.as_str()).collect();
    assert_eq!(names, vec!["Recipe 21", "Recipe 22", "Recipe 23", "Recipe 24", "Recipe 25"]);
    assert!(third.cursor.is_none());
    let beyond = store.list_recipes(7, page(4, 10));
    assert!(beyond.data.is_empty() && beyond.cursor.is_none());
    let exact = store.list_recipes(7, page(1, 25));
    assert_eq!(exact.data.len(), 25);
    assert!(exact.cursor.is_none());
}

#[test]
fn invalid_ingredient_lines_are_refused() {
    let mut store = RecipeStore::new();
    let mut bad = payload("Suppe");
    bad.sections[1].ingredients.push(CreateRecipeIngredient {
        ingredient: None,
        text: None,
        amount: Some("1".to_string()),
        amount_prefix: None,
        unit: None,
    });
    match store.create_recipe(7, bad.clone(), &catalog(), "t".to_string()) {
        Err(AppError::Unprocessable(m)) => {
            assert!(m.starts_with("Invalid ingredient: "));
            assert!(m.contains("amount: Some(\"1\")"));
        }
        _ => panic!("expected unprocessable"),
    }
    assert!(store.list_recipes(7, limit(None)).data.is_empty());
    store.create_recipe(7, payload("Suppe"), &catalog(), "t".to_string()).must();
    match store.update_recipe(1, 7, bad.clone(), &catalog(), "u".to_string()) {
        Err(AppError::Unprocessable(m)) => assert!(m.starts_with("Invalid ingredient: ")),
        _ => panic!("expected unprocessable"),
    }
    assert!(matches!(store.update_recipe(1, 8, bad, &catalog(), "u".to_string()), Err(AppError::Forbidden)));
    assert_eq!(store.get_recipe(1, 7).must().sections.len(), 2);
}

#[test]
fn repeated_tags_and_images_are_kept_once() {
    let mut store = RecipeStore::new();
    let mut p = payload("Suppe");
    p.tags = vec!["b".to_string(), "a".to_string(), "b".to_string(), "c".to_string(), "a".to_string()];
    p.images = vec![4, 3, 4, 4, 5];
    let made = store.create_recipe(7, p.clone(), &catalog(), "t".to_string()).must();
    assert_eq!(made.tags, vec!["b".to_string(), "a".to_string(), "c".to_string()]);
    assert_eq!(made.images, vec![4, 3, 5]);
    p.images = vec![9, 9];
    let updated = store.update_recipe(1, 7, p, &catalog(), "u".to_string()).must();
    assert_eq!(updated.images, vec![9]);
    assert_eq!(updated.tags.len(), 3);
}
