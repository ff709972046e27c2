//! Recipe requests: payload checks, copies and the mapping of stored rows.

use crate::error::AppError;
use crate::models::recipe::{
    ingredient_is_valid, CreateRecipe, CreateRecipeIngredient, CreateSection, IngredientRef,
    Recipe, RecipeIngredient, RecipePreview, Section, UserRating,
};
use std::collections::HashMap;
use vstd::prelude::*;
use vstd::string::*;

verus! {

broadcast use vstd::std_specs::hash::group_hash_axioms;

/// A recipe name must not be empty.
pub fn validate_recipe_payload(payload: &CreateRecipe) -> (r: Result<(), AppError>)
    ensures
        payload.name@.len() == 0 ==> (r matches Err(AppError::Unprocessable(m)) && m@
            == "Name cannot be empty"@),
        payload.name@.len() > 0 ==> r is Ok,
{
    if payload.name.as_str().is_empty() {
        Err(AppError::unprocessable("Name cannot be empty"))
    } else {
        Ok(())
    }
}

/// The `Debug` text of an ingredient line, as rendered by its derived `Debug`.
pub uninterp spec fn ingredient_debug_text(
    ingredient: Option<i32>,
    text: Option<Seq<char>>,
    amount: Option<Seq<char>>,
    amount_prefix: Option<Seq<char>>,
    unit: Option<Seq<char>>,
) -> Seq<char>;

pub open spec fn opt_text(s: Option<String>) -> Option<Seq<char>> {
    match s {
        Some(t) => Some(t@),
        None => None,
    }
}

pub open spec fn debug_text_of(ing: CreateRecipeIngredient) -> Seq<char> {
    ingredient_debug_text(
        ing.ingredient,
        opt_text(ing.text),
        opt_text(ing.amount),
        opt_text(ing.amount_prefix),
        opt_text(ing.unit),
    )
}

/// Calls `format!("{:?}", ing)` with the derived `Debug` of
/// `CreateRecipeIngredient`; the text depends on the line's fields only and
/// is named `ingredient_debug_text`.
#[verifier::external_body]
fn debug_text(ing: &CreateRecipeIngredient) -> (s: String)
    ensures
        s@ == ingredient_debug_text(
            ing.ingredient,
            opt_text(ing.text),
            opt_text(ing.amount),
            opt_text(ing.amount_prefix),
            opt_text(ing.unit),
        ),
{
    format!("{:?}", ing)
}

/// An ingredient line is stored only when it is valid; otherwise the request
/// is unprocessable with `Invalid ingredient: ` and the line's `Debug` text.
pub fn check_ingredient(ing: &CreateRecipeIngredient) -> (r: Result<(), AppError>)
    ensures
        ingredient_is_valid(*ing) ==> r is Ok,
        !ingredient_is_valid(*ing) ==> (r matches Err(AppError::Unprocessable(m)) && m@
            == "Invalid ingredient: "@ + debug_text_of(*ing)),
{
    if ing.is_valid() {
        Ok(())
    } else {
        let msg = String::from_str("Invalid ingredient: ").concat(debug_text(ing).as_str());
        Err(AppError::Unprocessable(msg))
    }
}

/// The write form of a stored ingredient line: the catalog reference becomes its id.
pub open spec fn ingredient_copy_of(i: RecipeIngredient) -> CreateRecipeIngredient {
    CreateRecipeIngredient {
        ingredient: match i.ingredient {
            Some(r) => Some(r.id),
            None => None,
        },
        text: i.text,
        amount: i.amount,
        amount_prefix: i.amount_prefix,
        unit: i.unit,
    }
}

/// `c` is the write form of section `s`: same heading, same steps, and each
/// ingredient line in its write form.
pub open spec fn section_copied(s: Section, c: CreateSection) -> bool {
    &&& c.name == s.name
    &&& c.steps == s.steps
    &&& c.ingredients@ == s.ingredients@.map_values(|i: RecipeIngredient| ingredient_copy_of(i))
}

/// `c` is the payload that recreates `recipe` as a copy: the name gets the
/// suffix ` (Copy)`; everything else of its content is kept.
pub open spec fn recipe_copied(recipe: Recipe, c: CreateRecipe) -> bool {
    &&& c.name@ == recipe.name@ + " (Copy)"@
    &&& c.tags == recipe.tags
    &&& c.source == recipe.source
    &&& c.time == recipe.time
    &&& c.work_minutes == recipe.work_minutes
    &&& c.overall_minutes == recipe.overall_minutes
    &&& c.size_number == recipe.size_number
    &&& c.size_text == recipe.size_text
    &&& c.notes == recipe.notes
    &&& c.main_image == recipe.main_image
    &&& c.images == recipe.images
    &&& c.sections@.len() == recipe.sections@.len()
    &&& forall|i: int|
        0 <= i < c.sections@.len() ==> section_copied(recipe.sections@[i], #[trigger] c.sections@[i])
}

fn copy_ingredient(i: RecipeIngredient) -> (c: CreateRecipeIngredient)
    ensures
        c == ingredient_copy_of(i),
{
    CreateRecipeIngredient {
        ingredient: match i.ingredient {
            Some(r) => Some(r.id),
            None => None,
        },
        text: i.text,
        amount: i.amount,
        amount_prefix: i.amount_prefix,
        unit: i.unit,
    }
}

fn copy_section(s: Section) -> (c: CreateSection)
    ensures
        section_copied(s, c),
{
    let ghost src = s.ingredients@;
    let mut ingredients: Vec<CreateRecipeIngredient> = Vec::new();
    for i in it: s.ingredients.into_iter()
        invariant
            it.seq() == src,
            ingredients@ == src.take(it.index() as int).map_values(
                |i: RecipeIngredient| ingredient_copy_of(i),
            ),
    {
        ingredients.push(copy_ingredient(i));
        proof {
            assert(src.take(it.index() as int + 1) =~= src.take(it.index() as int).push(src[it.index() as int]));
        }
    }
    assert(src.take(src.len() as int) =~= src);
    CreateSection { name: s.name, ingredients, steps: s.steps }
}

/// The payload of `POST /recipes/{id}/copy`: `recipe` with ` (Copy)`
/// appended to its name and every section in its write form.
pub fn create_recipe_copy(recipe: Recipe) -> (c: CreateRecipe)
    ensures
        recipe_copied(recipe, c),
{
    proof {
        reveal_strlit(" (Copy)");
    }
    let ghost orig = recipe;
    let name = recipe.name.concat(" (Copy)");
    let mut sections: Vec<CreateSection> = Vec::new();
    for s in it: recipe.sections.into_iter()
        invariant
            it.seq() == orig.sections@,
            sections@.len() == it.index(),
            forall|k: int|
                0 <= k < sections@.len() ==> section_copied(
                    orig.sections@[k],
                    #[trigger] sections@[k],
                ),
    {
        sections.push(copy_section(s));
    }
    CreateRecipe {
        name,
        tags: recipe.tags,
        source: recipe.source,
        time: recipe.time,
        work_minutes: recipe.work_minutes,
        overall_minutes: recipe.overall_minutes,
        size_number: recipe.size_number,
        size_text: recipe.size_text,
        notes: recipe.notes,
        main_image: recipe.main_image,
        images: recipe.images,
        sections,
    }
}


/// Ids narrowed to 32 bits, as the API models carry them.
pub open spec fn narrow_ids(ids: Seq<i64>) -> Seq<i32> {
    ids.map_values(|x: i64| x as i32)
}

/// `ids.into_iter().map(|v| v as i32).collect()`.
pub fn narrow_id_list(ids: Vec<i64>) -> (r: Vec<i32>)
    ensures
        r@ == narrow_ids(ids@),
{
    let ghost src = ids@;
    let mut out: Vec<i32> = Vec::new();
    let n = ids.len();
    let mut i: usize = 0;
    while i < n
        invariant
            n == ids@.len(),
            ids@ == src,
            i <= n,
            out@ == narrow_ids(src.take(i as int)),
        decreases n - i,
    {
        out.push(ids[i] as i32);
        assert(narrow_ids(src.take(i + 1)) =~= narrow_ids(src.take(i as int)).push(src[i as int] as i32));
        i = i + 1;
    }
    assert(src.take(n as int) =~= src);
    out
}

/// A stored ingredient line, joined with the name of its catalog ingredient.
pub struct IngredientRow {
    pub id: i64,
    pub ingredient_id: Option<i64>,
    pub ingredient_name: Option<String>,
    pub text: Option<String>,
    pub amount: Option<String>,
    pub amount_prefix: Option<String>,
    pub unit: Option<String>,
}

/// The ingredient line answered for a stored row: ids narrowed to 32 bits,
/// the catalog reference expanded with its name (empty when the name is missing).
pub open spec fn ingredient_of_row(row: IngredientRow, r: RecipeIngredient) -> bool {
    &&& r.id == row.id as i32
    &&& match row.ingredient_id {
        Some(id) => r.ingredient matches Some(ir) && ir.id == id as i32 && ir.name@ == match row.ingredient_name {
            Some(n) => n@,
            None => Seq::<char>::empty(),
        },
        None => r.ingredient is None,
    }
    &&& r.text == row.text
    &&& r.amount == row.amount
    &&& r.amount_prefix == row.amount_prefix
    &&& r.unit == row.unit
}

pub fn recipe_ingredient_from_row(row: IngredientRow) -> (r: RecipeIngredient)
    ensures
        ingredient_of_row(row, r),
{
    let ghost row0 = row;
    let ingredient = match row.ingredient_id {
        Some(id) => {
            let name = match row.ingredient_name {
                Some(n) => n,
                None => String::new(),
            };
            Some(IngredientRef { id: id as i32, name })
        },
        None => None,
    };
    RecipeIngredient {
        id: row.id as i32,
        ingredient,
        text: row.text,
        amount: row.amount,
        amount_prefix: row.amount_prefix,
        unit: row.unit,
    }
}

/// A section answered from its stored row, its steps and its ingredient rows (in position order).
pub fn section_from_rows(id: i64, name: Option<String>, steps: Vec<String>, rows: Vec<IngredientRow>) -> (s: Section)
    ensures
        s.id == id as i32,
        s.name == name,
        s.steps == steps,
        s.ingredients@.len() == rows@.len(),
        forall|i: int| 0 <= i < rows@.len() ==> ingredient_of_row(rows@[i], #[trigger] s.ingredients@[i]),
{
    let ghost src = rows@;
    let mut ingredients: Vec<RecipeIngredient> = Vec::new();
    for row in it: rows.into_iter()
        invariant
            it.seq() == src,
            ingredients@.len() == it.index(),
            forall|k: int| 0 <= k < ingredients@.len() ==> ingredient_of_row(src[k], #[trigger] ingredients@[k]),
    {
        ingredients.push(recipe_ingredient_from_row(row));
    }
    Section { id: id as i32, name, ingredients, steps }
}

/// A point in time as stored: seconds since the Unix epoch and nanoseconds.
#[derive(Debug, Clone, Copy)]
pub struct Timestamp {
    pub secs: i64,
    pub nanos: u32,
}

/// The RFC 3339 text of a UTC time given as Unix seconds and nanoseconds, as
/// rendered by chrono (`None` when chrono has no such time).
pub uninterp spec fn rfc3339_utc(secs: i64, nanos: u32) -> Option<Seq<char>>;

/// Calls `chrono::DateTime::<Utc>::from_timestamp(secs, nanos)` and, when it
/// gives a time, `to_rfc3339` on it. The text depends on the two numbers
/// alone and is named `rfc3339_utc`; chrono answers `None` for seconds out of
/// its range or invalid nanoseconds (never for a time read back from storage,
/// which round-trips).
#[verifier::external_body]
fn rfc3339_text(secs: i64, nanos: u32) -> (t: Option<String>)
    ensures
        opt_text(t) == rfc3339_utc(secs, nanos),
{
    match chrono::DateTime::from_timestamp(secs, nanos) {
        Some(t) => Some(t.to_rfc3339()),
        None => None,
    }
}

/// The RFC 3339 text of a stored time.
pub fn timestamp_text(t: Timestamp) -> (s: Option<String>)
    ensures
        opt_text(s) == rfc3339_utc(t.secs, t.nanos),
{
    rfc3339_text(t.secs, t.nanos)
}

/// The ratings of a stored recipe, given as two columns in the same order
/// (rating users, rating values), paired position by position; user ids
/// narrowed to 32 bits.
pub open spec fn ratings_of(users: Seq<i64>, values: Seq<i32>) -> Seq<UserRating> {
    let n = if users.len() < values.len() {
        users.len()
    } else {
        values.len()
    };
    Seq::new(n, |i: int| UserRating { user: users[i] as i32, rating: values[i] })
}

/// Pairs the rating columns of a stored recipe into its ratings.
pub fn ratings_from_columns(users: &Vec<i64>, values: &Vec<i32>) -> (r: Vec<UserRating>)
    ensures
        r@ == ratings_of(users@, values@),
{
    let n = if users.len() < values.len() {
        users.len()
    } else {
        values.len()
    };
    let mut out: Vec<UserRating> = Vec::new();
    let mut i: usize = 0;
    while i < n
        invariant
            n <= users@.len(),
            n <= values@.len(),
            n == ratings_of(users@, values@).len(),
            i <= n,
            out@ == ratings_of(users@, values@).take(i as int),
        decreases n - i,
    {
        out.push(UserRating { user: users[i] as i32, rating: values[i] });
        assert(out@ =~= ratings_of(users@, values@).take(i + 1));
        i = i + 1;
    }
    assert(out@ =~= ratings_of(users@, values@));
    out
}

/// A stored recipe row with its roles, tags and images.
pub struct RecipeRow {
    pub id: i64,
    pub owner_id: i64,
    pub name: String,
    pub source: Option<String>,
    pub time_display: Option<String>,
    pub work_minutes: Option<i32>,
    pub overall_minutes: Option<i32>,
    pub size_number: Option<i32>,
    pub size_text: Option<String>,
    pub main_image_id: Option<i64>,
    pub notes: Vec<String>,
    pub created_at: Timestamp,
    pub updated_at: Timestamp,
    pub editors: Vec<i64>,
    pub viewers: Vec<i64>,
    pub tags: Vec<String>,
    pub images: Vec<i64>,
    pub rating_users: Vec<i64>,
    pub rating_values: Vec<i32>,
}

pub open spec fn narrow_opt(v: Option<i64>) -> Option<i32> {
    match v {
        Some(x) => Some(x as i32),
        None => None,
    }
}

/// The full recipe answered for a stored row and its sections: ids narrowed
/// to 32 bits, the stored ratings embedded.
pub open spec fn recipe_of_row(row: RecipeRow, sections: Vec<Section>, r: Recipe) -> bool {
    &&& r.id == row.id as i32
    &&& r.owner == row.owner_id as i32
    &&& r.editors@ == narrow_ids(row.editors@)
    &&& r.viewers@ == narrow_ids(row.viewers@)
    &&& r.name == row.name
    &&& r.tags == row.tags
    &&& r.source == row.source
    &&& r.rating@ == ratings_of(row.rating_users@, row.rating_values@)
    &&& r.time == row.time_display
    &&& r.work_minutes == row.work_minutes
    &&& r.overall_minutes == row.overall_minutes
    &&& r.size_number == row.size_number
    &&& r.size_text == row.size_text
    &&& r.notes == row.notes
    &&& r.main_image == narrow_opt(row.main_image_id)
    &&& r.images@ == narrow_ids(row.images@)
    &&& r.sections == sections
    &&& opt_text(r.created_at) == rfc3339_utc(row.created_at.secs, row.created_at.nanos)
    &&& opt_text(r.updated_at) == rfc3339_utc(row.updated_at.secs, row.updated_at.nanos)
}

pub fn recipe_from_row(row: RecipeRow, sections: Vec<Section>) -> (r: Recipe)
    ensures
        recipe_of_row(row, sections, r),
{
    let main_image = match row.main_image_id {
        Some(x) => Some(x as i32),
        None => None,
    };
    Recipe {
        id: row.id as i32,
        owner: row.owner_id as i32,
        editors: narrow_id_list(row.editors),
        viewers: narrow_id_list(row.viewers),
        name: row.name,
        tags: row.tags,
        source: row.source,
        rating: ratings_from_columns(&row.rating_users, &row.rating_values),
        time: row.time_display,
        work_minutes: row.work_minutes,
        overall_minutes: row.overall_minutes,
        size_number: row.size_number,
        size_text: row.size_text,
        notes: row.notes,
        main_image,
        images: narrow_id_list(row.images),
        sections,
        created_at: timestamp_text(row.created_at),
        updated_at: timestamp_text(row.updated_at),
    }
}

/// A row of the recipe search.
pub struct PreviewRow {
    pub id: i64,
    pub owner_id: i64,
    pub name: String,
    pub source: Option<String>,
    pub time_display: Option<String>,
    pub work_minutes: Option<i32>,
    pub overall_minutes: Option<i32>,
    pub size_number: Option<i32>,
    pub size_text: Option<String>,
    pub main_image_id: Option<i64>,
    pub created_at: Timestamp,
    pub updated_at: Timestamp,
    pub editors: Vec<i64>,
    pub viewers: Vec<i64>,
    pub tags: Vec<String>,
    pub rating_users: Vec<i64>,
    pub rating_values: Vec<i32>,
}

/// The preview answered for a search row: ids narrowed to 32 bits, the
/// stored ratings embedded.
pub open spec fn preview_of_row(row: PreviewRow, p: RecipePreview) -> bool {
    &&& p.id == row.id as i32
    &&& p.owner == row.owner_id as i32
    &&& p.editors@ == narrow_ids(row.editors@)
    &&& p.viewers@ == narrow_ids(row.viewers@)
    &&& p.name == row.name
    &&& p.tags == row.tags
    &&& p.source == row.source
    &&& p.rating@ == ratings_of(row.rating_users@, row.rating_values@)
    &&& p.time == row.time_display
    &&& p.work_minutes == row.work_minutes
    &&& p.overall_minutes == row.overall_minutes
    &&& p.size_number == row.size_number
    &&& p.size_text == row.size_text
    &&& p.main_image == narrow_opt(row.main_image_id)
    &&& opt_text(p.created_at) == rfc3339_utc(row.created_at.secs, row.created_at.nanos)
    &&& opt_text(p.updated_at) == rfc3339_utc(row.updated_at.secs, row.updated_at.nanos)
}

pub fn preview_from_row(row: PreviewRow) -> (p: RecipePreview)
    ensures
        preview_of_row(row, p),
{
    let main_image = match row.main_image_id {
        Some(x) => Some(x as i32),
        None => None,
    };
    RecipePreview {
        id: row.id as i32,
        owner: row.owner_id as i32,
        editors: narrow_id_list(row.editors),
        viewers: narrow_id_list(row.viewers),
        name: row.name,
        tags: row.tags,
        source: row.source,
        rating: ratings_from_columns(&row.rating_users, &row.rating_values),
        time: row.time_display,
        work_minutes: row.work_minutes,
        overall_minutes: row.overall_minutes,
        size_number: row.size_number,
        size_text: row.size_text,
        main_image,
        created_at: timestamp_text(row.created_at),
        updated_at: timestamp_text(row.updated_at),
    }
}


/// The number of ingredient lines in the first `k` sections.
pub open spec fn lines_before(secs: Seq<CreateSection>, k: int) -> int
    decreases k,
{
    if k <= 0 {
        0
    } else {
        lines_before(secs, k - 1) + secs[k - 1].ingredients@.len()
    }
}

proof fn lemma_lines_before_monotonic(secs: Seq<CreateSection>, j: int, k: int)
    requires
        0 <= j <= k,
    ensures
        lines_before(secs, j) <= lines_before(secs, k),
    decreases k - j,
{
    if j < k {
        lemma_lines_before_monotonic(secs, j, k - 1);
    }
}

/// The catalog reference of a written ingredient line: the named catalog
/// ingredient with its name, or none when the id is unknown or absent.
pub open spec fn catalog_ref(catalog: Map<i32, String>, id: Option<i32>) -> Option<IngredientRef> {
    match id {
        Some(i) => if catalog.dom().contains(i) {
            Some(IngredientRef { id: i, name: catalog[i] })
        } else {
            None
        },
        None => None,
    }
}

/// `r` is the written line `c` stored with line id `id`.
pub open spec fn line_created(c: CreateRecipeIngredient, id: int, catalog: Map<i32, String>, r: RecipeIngredient) -> bool {
    &&& r.id == id
    &&& r.ingredient == catalog_ref(catalog, c.ingredient)
    &&& r.text == c.text
    &&& r.amount == c.amount
    &&& r.amount_prefix == c.amount_prefix
    &&& r.unit == c.unit
}

/// `s` is the written section `c` stored with section id `sid`, its lines
/// numbered consecutively from `first_line`.
pub open spec fn section_created(c: CreateSection, sid: int, first_line: int, catalog: Map<i32, String>, s: Section) -> bool {
    &&& s.id == sid
    &&& s.name == c.name
    &&& s.steps == c.steps
    &&& s.ingredients@.len() == c.ingredients@.len()
    &&& forall|j: int|
        0 <= j < s.ingredients@.len() ==> line_created(c.ingredients@[j], first_line + j, catalog, #[trigger] s.ingredients@[j])
}

fn create_line(c: CreateRecipeIngredient, id: i32, catalog: &HashMap<i32, String>) -> (r: RecipeIngredient)
    ensures
        line_created(c, id as int, catalog@, r),
{
    let ingredient = match c.ingredient {
        Some(i) => match catalog.get(&i) {
            Some(name) => Some(IngredientRef { id: i, name: name.clone() }),
            None => None,
        },
        None => None,
    };
    RecipeIngredient {
        id,
        ingredient,
        text: c.text,
        amount: c.amount,
        amount_prefix: c.amount_prefix,
        unit: c.unit,
    }
}

fn create_section(c: CreateSection, sid: i32, first_line: i32, catalog: &HashMap<i32, String>) -> (s: Section)
    requires
        first_line + c.ingredients@.len() <= i32::MAX,
    ensures
        section_created(c, sid as int, first_line as int, catalog@, s),
{
    let ghost src = c.ingredients@;
    let mut next = first_line;
    let mut lines: Vec<RecipeIngredient> = Vec::new();
    for line in it: c.ingredients.into_iter()
        invariant
            it.seq() == src,
            first_line + src.len() <= i32::MAX,
            lines@.len() == it.index(),
            next == first_line + it.index(),
            forall|j: int| 0 <= j < lines@.len() ==> line_created(src[j], first_line + j, catalog@, #[trigger] lines@[j]),
    {
        lines.push(create_line(line, next, catalog));
        next = next + 1;
    }
    Section { id: sid, name: c.name, ingredients: lines, steps: c.steps }
}

/// `r` carries the content of the written recipe `input` apart from its tag
/// and image lists: its fields as written, sections numbered from 1 and
/// ingredient lines from 1 across all sections, each line's catalog
/// reference resolved in `catalog`.
pub open spec fn content_common(input: CreateRecipe, catalog: Map<i32, String>, r: Recipe) -> bool {
    &&& r.name == input.name
    &&& r.source == input.source
    &&& r.time == input.time
    &&& r.work_minutes == input.work_minutes
    &&& r.overall_minutes == input.overall_minutes
    &&& r.size_number == input.size_number
    &&& r.size_text == input.size_text
    &&& r.notes == input.notes
    &&& r.main_image == input.main_image
    &&& r.sections@.len() == input.sections@.len()
    &&& forall|k: int|
        0 <= k < r.sections@.len() ==> section_created(
            input.sections@[k],
            k + 1,
            lines_before(input.sections@, k) + 1,
            catalog,
            #[trigger] r.sections@[k],
        )
}

/// `r` carries the content of the written recipe `input`, its tags and
/// images as written.
pub open spec fn content_created(input: CreateRecipe, catalog: Map<i32, String>, r: Recipe) -> bool {
    &&& content_common(input, catalog, r)
    &&& r.tags == input.tags
    &&& r.images == input.images
}

/// `s` with every repeat of an earlier element removed, order kept.
pub open spec fn without_repeats<T>(s: Seq<T>) -> Seq<T>
    decreases s.len(),
{
    if s.len() == 0 {
        s
    } else {
        let prev = without_repeats(s.drop_last());
        if s.drop_last().contains(s.last()) {
            prev
        } else {
            prev.push(s.last())
        }
    }
}

/// The texts of a list of strings.
pub open spec fn text_views(s: Seq<String>) -> Seq<Seq<char>> {
    s.map_values(|t: String| t@)
}

/// `r` carries the content of the written recipe `input` as it is stored:
/// each tag and each image kept once, at its first position.
pub open spec fn content_stored(input: CreateRecipe, catalog: Map<i32, String>, r: Recipe) -> bool {
    &&& content_common(input, catalog, r)
    &&& text_views(r.tags@) == without_repeats(text_views(input.tags@))
    &&& r.images@ == without_repeats(input.images@)
}

/// An element is in `without_repeats(s)` exactly when it is in `s`.
pub proof fn lemma_without_repeats_contains<T>(s: Seq<T>, x: T)
    ensures
        without_repeats(s).contains(x) == s.contains(x),
    decreases s.len(),
{
    if s.len() > 0 {
        let p = s.drop_last();
        lemma_without_repeats_contains(p, x);
        lemma_without_repeats_contains(p, s.last());
        if s.contains(x) {
            let i = choose|i: int| 0 <= i < s.len() && s[i] == x;
            if i < s.len() - 1 {
                assert(p[i] == x);
            }
        }
        if p.contains(x) {
            let i = choose|i: int| 0 <= i < p.len() && p[i] == x;
            assert(s[i] == x);
        }
        let w = without_repeats(p);
        if !p.contains(s.last()) {
            if w.push(s.last()).contains(x) {
                let i = choose|i: int| 0 <= i < w.len() + 1 && w.push(s.last())[i] == x;
                if i < w.len() {
                    assert(w[i] == x);
                }
            }
            if w.contains(x) {
                let i = choose|i: int| 0 <= i < w.len() && w[i] == x;
                assert(w.push(s.last())[i] == x);
            }
            if x == s.last() {
                assert(w.push(s.last())[w.len() as int] == x);
            }
        }
    }
}

/// An element is in `s.push(y)` exactly when it is in `s` or is `y`.
proof fn lemma_push_contains<T>(s: Seq<T>, y: T, x: T)
    ensures
        s.push(y).contains(x) == (s.contains(x) || x == y),
{
    let b = s.push(y);
    if b.contains(x) && x != y {
        let i = choose|i: int| 0 <= i < b.len() && b[i] == x;
        assert(s[i] == x);
    }
    if s.contains(x) {
        let i = choose|i: int| 0 <= i < s.len() && s[i] == x;
        assert(b[i] == x);
    }
    if x == y {
        assert(b[s.len() as int] == x);
    }
}

/// The image ids with later repeats dropped, order kept.
pub fn ids_without_repeats(v: &Vec<i32>) -> (r: Vec<i32>)
    ensures
        r@ == without_repeats(v@),
{
    let mut out: Vec<i32> = Vec::new();
    let n = v.len();
    let mut i: usize = 0;
    while i < n
        invariant
            n == v@.len(),
            i <= n,
            out@ == without_repeats(v@.take(i as int)),
        decreases n - i,
    {
        let x = v[i];
        let ghost t = v@.take(i + 1);
        assert(t.drop_last() =~= v@.take(i as int));
        proof {
            lemma_without_repeats_contains(v@.take(i as int), x);
        }
        let mut seen = false;
        let m = out.len();
        let mut j: usize = 0;
        while j < m
            invariant
                m == out@.len(),
                j <= m,
                seen == out@.take(j as int).contains(x),
            decreases m - j,
        {
            if out[j] == x {
                seen = true;
            }
            assert(out@.take(j + 1) =~= out@.take(j as int).push(out@[j as int]));
            proof {
                lemma_push_contains(out@.take(j as int), out@[j as int], x);
            }
            j = j + 1;
        }
        assert(out@.take(m as int) =~= out@);
        if !seen {
            out.push(x);
        }
        i = i + 1;
    }
    assert(v@.take(n as int) =~= v@);
    out
}

/// The tags with later repeats dropped, order kept.
pub fn texts_without_repeats(v: &Vec<String>) -> (r: Vec<String>)
    ensures
        text_views(r@) == without_repeats(text_views(v@)),
{
    let ghost tv = text_views(v@);
    let mut out: Vec<String> = Vec::new();
    let n = v.len();
    let mut i: usize = 0;
    while i < n
        invariant
            n == v@.len(),
            tv == text_views(v@),
            i <= n,
            text_views(out@) == without_repeats(tv.take(i as int)),
        decreases n - i,
    {
        let x = &v[i];
        let ghost t = tv.take(i + 1);
        assert(t.drop_last() =~= tv.take(i as int));
        assert(t.last() == x@);
        proof {
            lemma_without_repeats_contains(tv.take(i as int), x@);
        }
        let mut seen = false;
        let m = out.len();
        let mut j: usize = 0;
        while j < m
            invariant
                m == out@.len(),
                j <= m,
                seen == text_views(out@).take(j as int).contains(x@),
            decreases m - j,
        {
            if crate::text::str_eq(out[j].as_str(), x.as_str()) {
                seen = true;
            }
            assert(text_views(out@).take(j + 1) =~= text_views(out@).take(j as int).push(out@[j as int]@));
            proof {
                lemma_push_contains(text_views(out@).take(j as int), out@[j as int]@, x@);
            }
            j = j + 1;
        }
        assert(text_views(out@).take(m as int) =~= text_views(out@));
        if !seen {
            let ghost before = out@;
            out.push(x.clone());
            assert(text_views(out@) =~= text_views(before).push(x@));
        }
        i = i + 1;
    }
    assert(tv.take(n as int) =~= tv);
    out
}

/// Every ingredient line of every section is valid.
pub open spec fn all_lines_valid(secs: Seq<CreateSection>) -> bool {
    forall|k: int, j: int|
        0 <= k < secs.len() && 0 <= j < secs[k].ingredients@.len() ==> ingredient_is_valid(
            #[trigger] secs[k].ingredients@[j],
        )
}

/// Line `j` of section `k` is the first invalid line, in section order and
/// then line order.
pub open spec fn first_invalid_at(secs: Seq<CreateSection>, k: int, j: int) -> bool {
    &&& 0 <= k < secs.len()
    &&& 0 <= j < secs[k].ingredients@.len()
    &&& !ingredient_is_valid(secs[k].ingredients@[j])
    &&& forall|a: int, b: int|
        0 <= a < k && 0 <= b < secs[a].ingredients@.len() ==> ingredient_is_valid(
            #[trigger] secs[a].ingredients@[b],
        )
    &&& forall|b: int| 0 <= b < j ==> ingredient_is_valid(#[trigger] secs[k].ingredients@[b])
}

/// The first invalid ingredient line (meaningful when there is one).
pub open spec fn first_invalid_line(secs: Seq<CreateSection>) -> CreateRecipeIngredient {
    let (k, j) = choose|k: int, j: int| first_invalid_at(secs, k, j);
    secs[k].ingredients@[j]
}

/// There is only one first invalid line.
proof fn lemma_first_invalid_unique(secs: Seq<CreateSection>, k: int, j: int)
    requires
        first_invalid_at(secs, k, j),
    ensures
        first_invalid_line(secs) == secs[k].ingredients@[j],
{
    let (k2, j2) = choose|k2: int, j2: int| first_invalid_at(secs, k2, j2);
    assert(first_invalid_at(secs, k2, j2));
    if k2 < k {
        assert(ingredient_is_valid(secs[k2].ingredients@[j2]));
    } else if k < k2 {
        assert(ingredient_is_valid(secs[k].ingredients@[j]));
    } else if j2 < j {
        assert(ingredient_is_valid(secs[k].ingredients@[j2]));
    } else if j < j2 {
        assert(ingredient_is_valid(secs[k2].ingredients@[j]));
    }
}

/// Checks every ingredient line, section by section: the first invalid
/// line makes the recipe unprocessable (see `check_ingredient`).
pub fn check_lines(secs: &Vec<CreateSection>) -> (r: Result<(), AppError>)
    ensures
        all_lines_valid(secs@) ==> r is Ok,
        !all_lines_valid(secs@) ==> (r matches Err(AppError::Unprocessable(m)) && m@
            == "Invalid ingredient: "@ + debug_text_of(first_invalid_line(secs@))),
{
    let n = secs.len();
    let mut k: usize = 0;
    while k < n
        invariant
            n == secs@.len(),
            k <= n,
            forall|a: int, b: int|
                0 <= a < k && 0 <= b < secs@[a].ingredients@.len() ==> ingredient_is_valid(
                    #[trigger] secs@[a].ingredients@[b],
                ),
        decreases n - k,
    {
        let lines = &secs[k].ingredients;
        let m = lines.len();
        let mut j: usize = 0;
        while j < m
            invariant
                n == secs@.len(),
                k < n,
                lines == secs@[k as int].ingredients,
                m == lines@.len(),
                j <= m,
                forall|a: int, b: int|
                    0 <= a < k && 0 <= b < secs@[a].ingredients@.len() ==> ingredient_is_valid(
                        #[trigger] secs@[a].ingredients@[b],
                    ),
                forall|b: int| 0 <= b < j ==> ingredient_is_valid(#[trigger] lines@[b]),
            decreases m - j,
        {
            if !lines[j].is_valid() {
                proof {
                    assert(first_invalid_at(secs@, k as int, j as int));
                    lemma_first_invalid_unique(secs@, k as int, j as int);
                }
                return check_ingredient(&lines[j]);
            }
            j = j + 1;
        }
        k = k + 1;
    }
    Ok(())
}

/// `r` is the written recipe `input` stored with id `id` and owner `owner`:
/// no editors, viewers or ratings, both timestamps `now`.
pub open spec fn recipe_created(input: CreateRecipe, id: int, owner: int, catalog: Map<i32, String>, now: String, r: Recipe) -> bool {
    &&& r.id == id
    &&& r.owner == owner
    &&& r.editors@.len() == 0
    &&& r.viewers@.len() == 0
    &&& r.rating@.len() == 0
    &&& r.created_at == Some(now)
    &&& r.updated_at == Some(now)
    &&& content_created(input, catalog, r)
}

/// Whether the ids of a written recipe's sections and lines fit in 32 bits.
pub open spec fn numbering_fits(input: CreateRecipe) -> bool {
    &&& input.sections@.len() < i32::MAX
    &&& lines_before(input.sections@, input.sections@.len() as int) < i32::MAX
}

/// The recipe stored for a written one (in-memory variant), with id `id`,
/// owner `owner` and both timestamps `now`.
pub fn map_create_to_recipe(catalog: &HashMap<i32, String>, id: i32, owner: i32, input: CreateRecipe, now: String) -> (r: Recipe)
    requires
        numbering_fits(input),
    ensures
        recipe_created(input, id as int, owner as int, catalog@, now, r),
{
    let ghost secs = input.sections@;
    let mut next_section: i32 = 1;
    let mut next_line: i32 = 1;
    let mut sections: Vec<Section> = Vec::new();
    for sec in it: input.sections.into_iter()
        invariant
            it.seq() == secs,
            secs.len() < i32::MAX,
            lines_before(secs, secs.len() as int) < i32::MAX,
            sections@.len() == it.index(),
            next_section == it.index() + 1,
            next_line == lines_before(secs, it.index() as int) + 1,
            forall|k: int|
                0 <= k < sections@.len() ==> section_created(
                    secs[k],
                    k + 1,
                    lines_before(secs, k) + 1,
                    catalog@,
                    #[trigger] sections@[k],
                ),
    {
        let ghost k = it.index() as int;
        proof {
            lemma_lines_before_monotonic(secs, k + 1, secs.len() as int);
            lemma_lines_before_monotonic(secs, 0, k);
        }
        assert(sec == secs[k]);
        let n = sec.ingredients.len();
        assert(lines_before(secs, k + 1) == lines_before(secs, k) + n);
        let s = create_section(sec, next_section, next_line, catalog);
        sections.push(s);
        next_section = next_section + 1;
        next_line = next_line + n as i32;
    }
    let created = now.clone();
    Recipe {
        id,
        owner,
        editors: Vec::new(),
        viewers: Vec::new(),
        name: input.name,
        tags: input.tags,
        source: input.source,
        rating: Vec::new(),
        time: input.time,
        work_minutes: input.work_minutes,
        overall_minutes: input.overall_minutes,
        size_number: input.size_number,
        size_text: input.size_text,
        notes: input.notes,
        main_image: input.main_image,
        images: input.images,
        sections,
        created_at: Some(created),
        updated_at: Some(now),
    }
}


/// A stored recipe keeps what was written in each section and line: every
/// section keeps its heading, steps and number of lines, and every line
/// keeps its text, amount, amount prefix and unit; a line that names a
/// catalog ingredient refers to it with its catalog name, one that names
/// none refers to none.
pub proof fn lemma_stored_lines_keep_written_fields(input: CreateRecipe, catalog: Map<i32, String>, r: Recipe)
    requires
        content_common(input, catalog, r),
    ensures
        r.sections@.len() == input.sections@.len(),
        forall|k: int|
            0 <= k < r.sections@.len() ==> (#[trigger] r.sections@[k]).name == input.sections@[k].name
                && r.sections@[k].steps == input.sections@[k].steps
                && r.sections@[k].ingredients@.len() == input.sections@[k].ingredients@.len(),
        forall|k: int, j: int|
            0 <= k < r.sections@.len() && 0 <= j < input.sections@[k].ingredients@.len() ==> ({
                let w = input.sections@[k].ingredients@[j];
                let l = #[trigger] r.sections@[k].ingredients@[j];
                &&& l.text == w.text
                &&& l.amount == w.amount
                &&& l.amount_prefix == w.amount_prefix
                &&& l.unit == w.unit
                &&& (w.ingredient is None ==> l.ingredient is None)
                &&& (w.ingredient matches Some(i) ==> (if catalog.dom().contains(i) {
                    l.ingredient == Some(IngredientRef { id: i, name: catalog[i] })
                } else {
                    l.ingredient is None
                }))
            }),
{
    assert forall|k: int, j: int|
        0 <= k < r.sections@.len() && 0 <= j < input.sections@[k].ingredients@.len() implies ({
        let w = input.sections@[k].ingredients@[j];
        let l = #[trigger] r.sections@[k].ingredients@[j];
        &&& l.text == w.text
        &&& l.amount == w.amount
        &&& l.amount_prefix == w.amount_prefix
        &&& l.unit == w.unit
        &&& (w.ingredient is None ==> l.ingredient is None)
        &&& (w.ingredient matches Some(i) ==> (if catalog.dom().contains(i) {
            l.ingredient == Some(IngredientRef { id: i, name: catalog[i] })
        } else {
            l.ingredient is None
        }))
    }) by {
        assert(section_created(
            input.sections@[k],
            k + 1,
            lines_before(input.sections@, k) + 1,
            catalog,
            r.sections@[k],
        ));
    }
}

/// A copy's payload keeps every line of the copied recipe: each section
/// keeps its heading, steps and number of lines, and each line keeps its
/// text, amount, amount prefix and unit and names the same catalog
/// ingredient by id.
pub proof fn lemma_copy_keeps_lines(recipe: Recipe, c: CreateRecipe)
    requires
        recipe_copied(recipe, c),
    ensures
        c.sections@.len() == recipe.sections@.len(),
        forall|k: int|
            0 <= k < c.sections@.len() ==> (#[trigger] c.sections@[k]).name == recipe.sections@[k].name
                && c.sections@[k].steps == recipe.sections@[k].steps
                && c.sections@[k].ingredients@.len() == recipe.sections@[k].ingredients@.len(),
        forall|k: int, j: int|
            0 <= k < c.sections@.len() && 0 <= j < recipe.sections@[k].ingredients@.len() ==> ({
                let s = recipe.sections@[k].ingredients@[j];
                let l = #[trigger] c.sections@[k].ingredients@[j];
                &&& l.text == s.text
                &&& l.amount == s.amount
                &&& l.amount_prefix == s.amount_prefix
                &&& l.unit == s.unit
                &&& (s.ingredient is None ==> l.ingredient is None)
                &&& (s.ingredient matches Some(i) ==> l.ingredient == Some(i.id))
            }),
{
    assert forall|k: int, j: int|
        0 <= k < c.sections@.len() && 0 <= j < recipe.sections@[k].ingredients@.len() implies ({
        let s = recipe.sections@[k].ingredients@[j];
        let l = #[trigger] c.sections@[k].ingredients@[j];
        &&& l.text == s.text
        &&& l.amount == s.amount
        &&& l.amount_prefix == s.amount_prefix
        &&& l.unit == s.unit
        &&& (s.ingredient is None ==> l.ingredient is None)
        &&& (s.ingredient matches Some(i) ==> l.ingredient == Some(i.id))
    }) by {
        assert(section_copied(recipe.sections@[k], c.sections@[k]));
        assert(c.sections@[k].ingredients@[j] == ingredient_copy_of(recipe.sections@[k].ingredients@[j]));
    }
}


/// An ingredient line is valid when it names a catalog ingredient or
/// carries a text, and invalid when it does neither (amount, prefix and
/// unit alone do not make a line).
pub proof fn lemma_line_validity(c: CreateRecipeIngredient)
    ensures
        c.ingredient is Some ==> ingredient_is_valid(c),
        c.text is Some ==> ingredient_is_valid(c),
        c.ingredient is None && c.text is None ==> !ingredient_is_valid(c),
{
}

} // verus!
