use foodly_backend::access::{
    authorize_read, check_can_edit, contains_id, delete_recipe_outcome, may_edit, may_view,
    RecipeAccess,
};
use foodly_backend::error::AppError;

fn access() -> RecipeAccess {
    RecipeAccess { owner_id: 1, editors: vec![2], viewers: vec![3] }
}

#[test]
fn roles_grant_the_matrix() {
    let a = access();
    for (user, view, edit) in [(1, true, true), (2, true, true), (3, true, false), (4, false, false)] {
        assert_eq!(may_view(&a, user), view);
        assert_eq!(may_edit(&a, user), edit);
    }
    assert!(contains_id(&vec![5, 6], 6));
    assert!(!contains_id(&vec![], 6));
}

#[test]
fn reading_a_recipe_of_another_user_is_forbidden() {
    let a = RecipeAccess { owner_id: 1, editors: vec![], viewers: vec![] };
    assert!(authorize_read(Some(&a), 1).is_ok());
    assert!(matches!(authorize_read(Some(&a), 2), Err(AppError::Forbidden)));
    match authorize_read(None, 1) {
        Err(AppError::NotFound(m)) => assert_eq!(m, "Recipe not found"),
        _ => panic!("expected not found"),
    }
}

#[test]
fn updating_needs_owner_or_editor() {
    assert!(check_can_edit(Some((1, Some(false))), 1).is_ok());
    assert!(check_can_edit(Some((1, Some(true))), 2).is_ok());
    assert!(matches!(check_can_edit(Some((1, Some(false))), 2), Err(AppError::Forbidden)));
    assert!(matches!(check_can_edit(Some((1, None)), 2), Err(AppError::Forbidden)));
    match check_can_edit(None, 2) {
        Err(AppError::NotFound(m)) => assert_eq!(m, "Recipe not found"),
        _ => panic!("expected not found"),
    }
}

#[test]
fn deleting_needs_ownership() {
    assert!(delete_recipe_outcome(1, None).is_ok());
    assert!(matches!(delete_recipe_outcome(0, Some(true)), Err(AppError::Forbidden)));
    match delete_recipe_outcome(0, Some(false)) {
        Err(AppError::NotFound(m)) => assert_eq!(m, "Recipe not found"),
        _ => panic!("expected not found"),
    }
}
