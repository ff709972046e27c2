use foodly_backend::api::recipes::{
    check_lines, ids_without_repeats, ratings_from_columns, texts_without_repeats, check_ingredient, create_recipe_copy, map_create_to_recipe, narrow_id_list, preview_from_row,
    recipe_from_row, recipe_ingredient_from_row, section_from_rows, timestamp_text,
    validate_recipe_payload, IngredientRow, PreviewRow, RecipeRow, Timestamp,
};
use foodly_backend::error::AppError;
use foodly_backend::models::recipe::{
    CreateRecipe, CreateRecipeIngredient, CreateSection, IngredientRef, Recipe, RecipeIngredient,
    RecipePreview, Section, UserRating,
};
use std::collections::HashMap;

fn payload(name: &str) -> CreateRecipe {
    CreateRecipe {
        name: name.to_string(),
        tags: vec![],
        source: None,
        time: None,
        work_minutes: Some(15),
        overall_minutes: Some(30),
        size_number: Some(2),
        size_text: Some("portions".to_string()),
        notes: vec![],
        main_image: None,
        images: vec![],
        sections: vec![],
    }
}

fn line(ingredient: Option<i32>, text: Option<&str>) -> CreateRecipeIngredient {
    CreateRecipeIngredient {
        ingredient,
        text: text.map(|t| t.to_string()),
        amount: Some("200".to_string()),
        amount_prefix: None,
        unit: Some("g".to_string()),
    }
}

fn recipe(name: &str) -> Recipe {
    Recipe {
        id: 5,
        owner: 1,
        editors: vec![2],
        viewers: vec![3],
        name: name.to_string(),
        tags: vec!["Hauptgericht".to_string()],
        source: Some("https://example.com".to_string()),
        rating: vec![UserRating { user: 1, rating: 5 }],
        time: Some("45 min".to_string()),
        work_minutes: Some(10),
        overall_minutes: None,
        size_number: None,
        size_text: None,
        notes: vec!["Test note".to_string()],
        main_image: Some(1),
        images: vec![2, 3],
        sections: vec![Section {
            id: 1,
            name: Some("Teig".to_string()),
            ingredients: vec![
                RecipeIngredient {
                    id: 1,
                    ingredient: Some(IngredientRef { id: 7, name: "Spaghetti".to_string() }),
                    text: None,
                    amount: Some("500".to_string()),
                    amount_prefix: None,
                    unit: Some("g".to_string()),
                },
                RecipeIngredient {
                    id: 2,
                    ingredient: None,
                    text: Some("etwas Petersilie".to_string()),
                    amount: None,
                    amount_prefix: Some("ca.".to_string()),
                    unit: None,
                },
            ],
            steps: vec!["Nudeln kochen.".to_string()],
        }],
        created_at: Some("2026-01-10T12:00:00+00:00".to_string()),
        updated_at: None,
    }
}

#[test]
fn recipe_name_is_required() {
    assert!(validate_recipe_payload(&payload("Test Recipe")).is_ok());
    match validate_recipe_payload(&payload("")) {
        Err(AppError::Unprocessable(m)) => assert_eq!(m, "Name cannot be empty"),
        _ => panic!("expected unprocessable"),
    }
}

#[test]
fn ingredient_lines_need_a_reference_or_text() {
    assert!(check_ingredient(&line(Some(1), None)).is_ok());
    assert!(check_ingredient(&line(None, Some("Salz"))).is_ok());
    match check_ingredient(&line(None, None)) {
        Err(AppError::Unprocessable(m)) => assert_eq!(
            m,
            "Invalid ingredient: CreateRecipeIngredient { ingredient: None, text: None, amount: Some(\"200\"), amount_prefix: None, unit: Some(\"g\") }"
        ),
        _ => panic!("expected unprocessable"),
    }
}

#[test]
fn copy_appends_suffix_and_keeps_content() {
    let c = create_recipe_copy(recipe("Original"));
    assert_eq!(c.name, "Original (Copy)");
    assert_eq!(c.work_minutes, Some(10));
    assert_eq!(c.notes, vec!["Test note".to_string()]);
    assert_eq!(c.tags, vec!["Hauptgericht".to_string()]);
    assert_eq!(c.images, vec![2, 3]);
    assert_eq!(c.main_image, Some(1));
    assert_eq!(c.sections.len(), 1);
    let s = &c.sections[0];
    assert_eq!(s.name, Some("Teig".to_string()));
    assert_eq!(s.steps, vec!["Nudeln kochen.".to_string()]);
    assert_eq!(s.ingredients.len(), 2);
    assert_eq!(s.ingredients[0].ingredient, Some(7));
    assert_eq!(s.ingredients[0].amount, Some("500".to_string()));
    assert_eq!(s.ingredients[1].ingredient, None);
    assert_eq!(s.ingredients[1].text, Some("etwas Petersilie".to_string()));
    assert_eq!(s.ingredients[1].amount_prefix, Some("ca.".to_string()));
}

#[test]
fn preview_keeps_list_fields() {
    let p: RecipePreview = RecipePreview::from(recipe("Spaghetti"));
    assert_eq!(p.id, 5);
    assert_eq!(p.owner, 1);
    assert_eq!(p.editors, vec![2]);
    assert_eq!(p.viewers, vec![3]);
    assert_eq!(p.name, "Spaghetti");
    assert_eq!(p.rating.len(), 1);
    assert_eq!(p.time, Some("45 min".to_string()));
    assert_eq!(p.main_image, Some(1));
    assert_eq!(p.created_at, Some("2026-01-10T12:00:00+00:00".to_string()));
}

#[test]
fn ids_are_narrowed_to_32_bits() {
    assert_eq!(narrow_id_list(vec![1, 2, (1i64 << 32) + 3]), vec![1, 2, 3]);
}

#[test]
fn stored_lines_expand_their_catalog_reference() {
    let r = recipe_ingredient_from_row(IngredientRow {
        id: 9,
        ingredient_id: Some(1),
        ingredient_name: Some("Spaghetti".to_string()),
        text: None,
        amount: Some("500".to_string()),
        amount_prefix: None,
        unit: Some("g".to_string()),
    });
    assert_eq!(r.id, 9);
    let ir = r.ingredient.unwrap();
    assert_eq!(ir.id, 1);
    assert_eq!(ir.name, "Spaghetti");
    let r = recipe_ingredient_from_row(IngredientRow {
        id: 10,
        ingredient_id: Some(2),
        ingredient_name: None,
        text: None,
        amount: None,
        amount_prefix: None,
        unit: None,
    });
    assert_eq!(r.ingredient.unwrap().name, "");
}

#[test]
fn stored_recipe_rows_are_mapped() {
    let section = section_from_rows(
        3,
        None,
        vec!["Schritt 1".to_string()],
        vec![IngredientRow {
            id: 4,
            ingredient_id: None,
            ingredient_name: None,
            text: Some("Salz".to_string()),
            amount: None,
            amount_prefix: None,
            unit: None,
        }],
    );
    assert_eq!(section.id, 3);
    assert_eq!(section.ingredients.len(), 1);
    assert!(section.ingredients[0].ingredient.is_none());
    let r = recipe_from_row(
        RecipeRow {
            id: 1,
            owner_id: 2,
            name: "Test Recipe".to_string(),
            source: None,
            time_display: None,
            work_minutes: Some(15),
            overall_minutes: Some(30),
            size_number: Some(2),
            size_text: Some("portions".to_string()),
            main_image_id: Some(4),
            notes: vec![],
            created_at: Timestamp { secs: 1431648000, nanos: 0 },
            updated_at: Timestamp { secs: 1431648000, nanos: 500_000_000 },
            editors: vec![3],
            viewers: vec![],
            tags: vec![],
            images: vec![5, 6],
            rating_users: vec![2, 3],
            rating_values: vec![5, 4],
        },
        vec![section],
    );
    assert_eq!(r.id, 1);
    assert_eq!(r.owner, 2);
    assert_eq!(r.editors, vec![3]);
    assert_eq!(r.images, vec![5, 6]);
    assert_eq!(r.main_image, Some(4));
    assert_eq!(r.rating.len(), 2);
    assert_eq!((r.rating[0].user, r.rating[0].rating), (2, 5));
    assert_eq!((r.rating[1].user, r.rating[1].rating), (3, 4));
    assert_eq!(r.sections.len(), 1);
    assert_eq!(r.created_at, Some("2015-05-15T00:00:00+00:00".to_string()));
    assert_eq!(r.updated_at, Some("2015-05-15T00:00:00.500+00:00".to_string()));
    let p = preview_from_row(PreviewRow {
        id: 1,
        owner_id: 2,
        name: "Fast Recipe".to_string(),
        source: None,
        time_display: None,
        work_minutes: Some(15),
        overall_minutes: None,
        size_number: None,
        size_text: None,
        main_image_id: None,
        created_at: Timestamp { secs: 0, nanos: 0 },
        updated_at: Timestamp { secs: 86_400, nanos: 0 },
        editors: vec![],
        viewers: vec![7],
        tags: vec!["Vegan".to_string()],
        rating_users: vec![7],
        rating_values: vec![3],
    });
    assert_eq!(p.rating.len(), 1);
    assert_eq!((p.rating[0].user, p.rating[0].rating), (7, 3));
    assert_eq!(p.name, "Fast Recipe");
    assert_eq!(p.viewers, vec![7]);
    assert_eq!(p.created_at, Some("1970-01-01T00:00:00+00:00".to_string()));
    assert_eq!(p.updated_at, Some("1970-01-02T00:00:00+00:00".to_string()));
}

#[test]
fn created_recipe_numbers_sections_and_lines() {
    let mut catalog = HashMap::new();
    catalog.insert(1, "Spaghetti".to_string());
    let mut input = payload("Neues Rezept");
    input.sections = vec![
        CreateSection {
            name: None,
            ingredients: vec![line(Some(1), None), line(Some(99), Some("x"))],
            steps: vec!["Schritt 1".to_string()],
        },
        CreateSection {
            name: Some("Sauce".to_string()),
            ingredients: vec![line(None, Some("Salz"))],
            steps: vec![],
        },
    ];
    let r = map_create_to_recipe(&catalog, 42, 7, input, "2026-01-01T00:00:00+00:00".to_string());
    assert_eq!(r.id, 42);
    assert_eq!(r.owner, 7);
    assert!(r.editors.is_empty() && r.viewers.is_empty() && r.rating.is_empty());
    assert_eq!(r.sections[0].id, 1);
    assert_eq!(r.sections[1].id, 2);
    assert_eq!(r.sections[0].ingredients[0].id, 1);
    assert_eq!(r.sections[0].ingredients[1].id, 2);
    assert_eq!(r.sections[1].ingredients[0].id, 3);
    assert_eq!(r.sections[0].ingredients[0].ingredient.as_ref().unwrap().name, "Spaghetti");
    assert!(r.sections[0].ingredients[1].ingredient.is_none());
    assert_eq!(r.created_at, r.updated_at);
}

#[test]
fn stored_times_render_as_rfc3339() {
    assert_eq!(
        timestamp_text(Timestamp { secs: 1431648000, nanos: 0 }),
        Some("2015-05-15T00:00:00+00:00".to_string())
    );
    assert_eq!(timestamp_text(Timestamp { secs: i64::MAX, nanos: 0 }), None);
}

#[test]
fn rating_columns_pair_by_position() {
    let r = ratings_from_columns(&vec![1, 2, 3], &vec![5, 1]);
    assert_eq!(r.len(), 2);
    assert_eq!((r[0].user, r[0].rating), (1, 5));
    assert_eq!((r[1].user, r[1].rating), (2, 1));
    assert!(ratings_from_columns(&vec![], &vec![4]).is_empty());
}

#[test]
fn first_invalid_line_is_reported() {
    let ok = CreateSection { name: None, ingredients: vec![line(Some(1), None)], steps: vec![] };
    assert!(check_lines(&vec![ok.clone(), ok.clone()]).is_ok());
    assert!(check_lines(&vec![]).is_ok());
    let mut first = line(None, None);
    first.unit = Some("first".to_string());
    let mut second = line(None, None);
    second.unit = Some("second".to_string());
    let bad = CreateSection { name: None, ingredients: vec![line(None, Some("x")), first], steps: vec![] };
    let worse = CreateSection { name: None, ingredients: vec![second], steps: vec![] };
    match check_lines(&vec![ok, bad, worse]) {
        Err(AppError::Unprocessable(m)) => {
            assert!(m.starts_with("Invalid ingredient: "));
            assert!(m.contains("\"first\""));
        }
        _ => panic!("expected unprocessable"),
    }
}

#[test]
fn repeats_are_dropped_in_order() {
    assert_eq!(ids_without_repeats(&vec![3, 1, 3, 2, 1]), vec![3, 1, 2]);
    assert!(ids_without_repeats(&vec![]).is_empty());
    let t: Vec<String> = ["x", "y", "x"].iter().map(|s| s.to_string()).collect();
    assert_eq!(texts_without_repeats(&t), vec!["x".to_string(), "y".to_string()]);
}
