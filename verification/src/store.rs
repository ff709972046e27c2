//! The in-memory recipe store: recipes held in a list in id order, each
//! request checked against the roles on the recipe it touches.

use crate::api::recipes::{
    all_lines_valid, check_lines, content_stored, debug_text_of, first_invalid_line,
    ids_without_repeats, map_create_to_recipe, numbering_fits, texts_without_repeats,
    validate_recipe_payload,
};
use crate::api::search::{
    finish_page, page_window, window_limit, window_offset, window_page, window_rows,
    PaginatedResponse, PaginationQuery,
};
use crate::access::{can_edit, can_view};
use crate::text::decimal;
use crate::error::AppError;
use crate::models::recipe::{
    CreateRecipe, IngredientRef, Recipe, RecipeIngredient, RecipePreview, Section, UserRating,
};
use std::collections::HashMap;
use vstd::prelude::*;
use vstd::string::*;

verus! {

/// Whether `user` may view (and copy) recipe `r`: owner, editor or viewer.
pub open spec fn viewable(r: Recipe, user: i32) -> bool {
    r.owner == user || r.editors@.contains(user) || r.viewers@.contains(user)
}

/// Whether `user` may replace recipe `r`: owner or editor.
pub open spec fn editable(r: Recipe, user: i32) -> bool {
    r.owner == user || r.editors@.contains(user)
}

/// Recipe ids grow strictly along the list.
pub open spec fn ids_ascending(rs: Seq<Recipe>) -> bool {
    forall|i: int, j: int| 0 <= i < j < rs.len() ==> rs[i].id < rs[j].id
}

/// Whether some recipe in `rs` has id `id`.
pub open spec fn has_recipe(rs: Seq<Recipe>, id: i32) -> bool {
    exists|i: int| 0 <= i < rs.len() && (#[trigger] rs[i]).id == id
}

/// The position of a recipe with id `id` in `rs` (meaningful when there is one).
pub open spec fn index_of_id(rs: Seq<Recipe>, id: i32) -> int {
    choose|i: int| 0 <= i < rs.len() && (#[trigger] rs[i]).id == id
}

/// The recipe with id `id` in `rs`, if any.
pub open spec fn recipe_with_id(rs: Seq<Recipe>, id: i32) -> Option<Recipe> {
    if has_recipe(rs, id) {
        Some(rs[index_of_id(rs, id)])
    } else {
        None
    }
}

/// The recipes of `rs` that `user` may view, in list order.
pub open spec fn visible_to(rs: Seq<Recipe>, user: i32) -> Seq<Recipe>
    decreases rs.len(),
{
    if rs.len() == 0 {
        Seq::empty()
    } else {
        let prev = visible_to(rs.drop_last(), user);
        if viewable(rs.last(), user) {
            prev.push(rs.last())
        } else {
            prev
        }
    }
}

/// The number of recipes a listing answers: the given limit (default 20),
/// at most 100.
pub open spec fn page_size(limit: Option<usize>) -> int {
    let l = match limit {
        Some(l) => l as int,
        None => 20,
    };
    if l < 100 {
        l
    } else {
        100
    }
}

pub open spec fn min_of(a: int, b: int) -> int {
    if a < b {
        a
    } else {
        b
    }
}

/// `b` holds what section `a` holds.
pub open spec fn same_section(a: Section, b: Section) -> bool {
    &&& a.id == b.id
    &&& a.name == b.name
    &&& a.ingredients@ == b.ingredients@
    &&& a.steps@ == b.steps@
}

pub open spec fn same_sections(a: Seq<Section>, b: Seq<Section>) -> bool {
    &&& a.len() == b.len()
    &&& forall|k: int| 0 <= k < a.len() ==> same_section(a[k], #[trigger] b[k])
}

/// `b` holds what recipe `a` holds.
pub open spec fn same_recipe(a: Recipe, b: Recipe) -> bool {
    &&& a.id == b.id
    &&& a.owner == b.owner
    &&& a.editors@ == b.editors@
    &&& a.viewers@ == b.viewers@
    &&& a.name == b.name
    &&& a.tags@ == b.tags@
    &&& a.source == b.source
    &&& a.rating@ == b.rating@
    &&& a.time == b.time
    &&& a.work_minutes == b.work_minutes
    &&& a.overall_minutes == b.overall_minutes
    &&& a.size_number == b.size_number
    &&& a.size_text == b.size_text
    &&& a.notes@ == b.notes@
    &&& a.main_image == b.main_image
    &&& a.images@ == b.images@
    &&& same_sections(a.sections@, b.sections@)
    &&& a.created_at == b.created_at
    &&& a.updated_at == b.updated_at
}

/// `p` is the list preview of recipe `r`.
pub open spec fn preview_matches(r: Recipe, p: RecipePreview) -> bool {
    &&& p.id == r.id
    &&& p.owner == r.owner
    &&& p.editors@ == r.editors@
    &&& p.viewers@ == r.viewers@
    &&& p.name == r.name
    &&& p.tags@ == r.tags@
    &&& p.source == r.source
    &&& p.rating@ == r.rating@
    &&& p.time == r.time
    &&& p.work_minutes == r.work_minutes
    &&& p.overall_minutes == r.overall_minutes
    &&& p.size_number == r.size_number
    &&& p.size_text == r.size_text
    &&& p.main_image == r.main_image
    &&& p.created_at == r.created_at
    &&& p.updated_at == r.updated_at
}

/// `r` is the written recipe `input` as stored with id `id` for `owner`:
/// no editors, viewers or ratings, both timestamps `now`, each tag and
/// image kept once.
pub open spec fn recipe_stored(input: CreateRecipe, id: int, owner: int, catalog: Map<i32, String>, now: String, r: Recipe) -> bool {
    &&& r.id == id
    &&& r.owner == owner
    &&& r.editors@.len() == 0
    &&& r.viewers@.len() == 0
    &&& r.rating@.len() == 0
    &&& r.created_at == Some(now)
    &&& r.updated_at == Some(now)
    &&& content_stored(input, catalog, r)
}

/// The number of rows of a list of `len` rows that a window from `from`
/// of at most `count` rows holds.
pub open spec fn window_len(len: int, from: int, count: int) -> int {
    if len <= from {
        0
    } else if len - from < count {
        len - from
    } else {
        count
    }
}

/// `r` is stored recipe `old_r` replaced by the written recipe `input`: id,
/// owner, roles, ratings and creation time kept, updated at `now`.
pub open spec fn recipe_updated(old_r: Recipe, input: CreateRecipe, catalog: Map<i32, String>, now: String, r: Recipe) -> bool {
    &&& r.id == old_r.id
    &&& r.owner == old_r.owner
    &&& r.editors == old_r.editors
    &&& r.viewers == old_r.viewers
    &&& r.rating == old_r.rating
    &&& r.created_at == old_r.created_at
    &&& r.updated_at == Some(now)
    &&& content_stored(input, catalog, r)
}

/// `c` is the copy of recipe `o` stored with id `id` for `owner`: no
/// editors or viewers, ` (Copy)` appended to the name, both timestamps
/// `now`, the rest of the content kept.
pub open spec fn recipe_copied_as(o: Recipe, id: int, owner: int, now: String, c: Recipe) -> bool {
    &&& c.id == id
    &&& c.owner == owner
    &&& c.editors@.len() == 0
    &&& c.viewers@.len() == 0
    &&& c.name@ == o.name@ + " (Copy)"@
    &&& c.tags@ == o.tags@
    &&& c.source == o.source
    &&& c.rating@ == o.rating@
    &&& c.time == o.time
    &&& c.work_minutes == o.work_minutes
    &&& c.overall_minutes == o.overall_minutes
    &&& c.size_number == o.size_number
    &&& c.size_text == o.size_text
    &&& c.notes@ == o.notes@
    &&& c.main_image == o.main_image
    &&& c.images@ == o.images@
    &&& same_sections(o.sections@, c.sections@)
    &&& c.created_at == Some(now)
    &&& c.updated_at == Some(now)
}

fn clone_ids(v: &Vec<i32>) -> (c: Vec<i32>)
    ensures
        c@ == v@,
{
    let mut out: Vec<i32> = Vec::new();
    let n = v.len();
    let mut i: usize = 0;
    while i < n
        invariant
            n == v@.len(),
            i <= n,
            out@ == v@.take(i as int),
        decreases n - i,
    {
        out.push(v[i]);
        assert(v@.take(i + 1) =~= v@.take(i as int).push(v@[i as int]));
        i = i + 1;
    }
    assert(v@.take(n as int) =~= v@);
    out
}

fn clone_texts(v: &Vec<String>) -> (c: Vec<String>)
    ensures
        c@ == v@,
{
    let mut out: Vec<String> = Vec::new();
    let n = v.len();
    let mut i: usize = 0;
    while i < n
        invariant
            n == v@.len(),
            i <= n,
            out@ == v@.take(i as int),
        decreases n - i,
    {
        out.push(v[i].clone());
        assert(v@.take(i + 1) =~= v@.take(i as int).push(v@[i as int]));
        i = i + 1;
    }
    assert(v@.take(n as int) =~= v@);
    out
}

fn clone_ratings(v: &Vec<UserRating>) -> (c: Vec<UserRating>)
    ensures
        c@ == v@,
{
    let mut out: Vec<UserRating> = Vec::new();
    let n = v.len();
    let mut i: usize = 0;
    while i < n
        invariant
            n == v@.len(),
            i <= n,
            out@ == v@.take(i as int),
        decreases n - i,
    {
        let x = &v[i];
        out.push(UserRating { user: x.user, rating: x.rating });
        assert(v@.take(i + 1) =~= v@.take(i as int).push(v@[i as int]));
        i = i + 1;
    }
    assert(v@.take(n as int) =~= v@);
    out
}

fn clone_text(s: &Option<String>) -> (c: Option<String>)
    ensures
        c == *s,
{
    match s {
        Some(t) => Some(t.clone()),
        None => None,
    }
}

fn clone_line(l: &RecipeIngredient) -> (c: RecipeIngredient)
    ensures
        c == *l,
{
    let ingredient = match &l.ingredient {
        Some(r) => Some(IngredientRef { id: r.id, name: r.name.clone() }),
        None => None,
    };
    RecipeIngredient {
        id: l.id,
        ingredient,
        text: clone_text(&l.text),
        amount: clone_text(&l.amount),
        amount_prefix: clone_text(&l.amount_prefix),
        unit: clone_text(&l.unit),
    }
}

fn clone_section(s: &Section) -> (c: Section)
    ensures
        same_section(*s, c),
{
    let mut lines: Vec<RecipeIngredient> = Vec::new();
    let n = s.ingredients.len();
    let mut i: usize = 0;
    while i < n
        invariant
            n == s.ingredients@.len(),
            i <= n,
            lines@ == s.ingredients@.take(i as int),
        decreases n - i,
    {
        lines.push(clone_line(&s.ingredients[i]));
        assert(s.ingredients@.take(i + 1) =~= s.ingredients@.take(i as int).push(
            s.ingredients@[i as int],
        ));
        i = i + 1;
    }
    assert(s.ingredients@.take(n as int) =~= s.ingredients@);
    Section { id: s.id, name: clone_text(&s.name), ingredients: lines, steps: clone_texts(&s.steps) }
}

fn clone_sections(v: &Vec<Section>) -> (c: Vec<Section>)
    ensures
        same_sections(v@, c@),
{
    let mut out: Vec<Section> = Vec::new();
    let n = v.len();
    let mut i: usize = 0;
    while i < n
        invariant
            n == v@.len(),
            i <= n,
            out@.len() == i,
            forall|k: int| 0 <= k < i ==> same_section(v@[k], #[trigger] out@[k]),
        decreases n - i,
    {
        out.push(clone_section(&v[i]));
        i = i + 1;
    }
    out
}

/// A copy of recipe `r` holding the same content.
pub fn clone_recipe(r: &Recipe) -> (c: Recipe)
    ensures
        same_recipe(*r, c),
{
    Recipe {
        id: r.id,
        owner: r.owner,
        editors: clone_ids(&r.editors),
        viewers: clone_ids(&r.viewers),
        name: r.name.clone(),
        tags: clone_texts(&r.tags),
        source: clone_text(&r.source),
        rating: clone_ratings(&r.rating),
        time: clone_text(&r.time),
        work_minutes: r.work_minutes,
        overall_minutes: r.overall_minutes,
        size_number: r.size_number,
        size_text: clone_text(&r.size_text),
        notes: clone_texts(&r.notes),
        main_image: r.main_image,
        images: clone_ids(&r.images),
        sections: clone_sections(&r.sections),
        created_at: clone_text(&r.created_at),
        updated_at: clone_text(&r.updated_at),
    }
}

/// The list preview of recipe `r`.
fn preview_of_ref(r: &Recipe) -> (p: RecipePreview)
    ensures
        preview_matches(*r, p),
{
    RecipePreview {
        id: r.id,
        owner: r.owner,
        editors: clone_ids(&r.editors),
        viewers: clone_ids(&r.viewers),
        name: r.name.clone(),
        tags: clone_texts(&r.tags),
        source: clone_text(&r.source),
        rating: clone_ratings(&r.rating),
        time: clone_text(&r.time),
        work_minutes: r.work_minutes,
        overall_minutes: r.overall_minutes,
        size_number: r.size_number,
        size_text: clone_text(&r.size_text),
        main_image: r.main_image,
        created_at: clone_text(&r.created_at),
        updated_at: clone_text(&r.updated_at),
    }
}

fn has_user(ids: &Vec<i32>, user: i32) -> (r: bool)
    ensures
        r == ids@.contains(user),
{
    let n = ids.len();
    let mut i: usize = 0;
    while i < n
        invariant
            n == ids@.len(),
            i <= n,
            forall|j: int| 0 <= j < i ==> ids@[j] != user,
        decreases n - i,
    {
        if ids[i] == user {
            assert(ids@[i as int] == user);
            return true;
        }
        i = i + 1;
    }
    false
}

fn may_view_recipe(r: &Recipe, user: i32) -> (b: bool)
    ensures
        b == viewable(*r, user),
{
    r.owner == user || has_user(&r.editors, user) || has_user(&r.viewers, user)
}

fn may_edit_recipe(r: &Recipe, user: i32) -> (b: bool)
    ensures
        b == editable(*r, user),
{
    r.owner == user || has_user(&r.editors, user)
}


/// Each recipe of an id-ordered list is found by its own id.
pub proof fn lemma_found_by_id(rs: Seq<Recipe>, k: int)
    requires
        ids_ascending(rs),
        0 <= k < rs.len(),
    ensures
        recipe_with_id(rs, rs[k].id) == Some(rs[k]),
        index_of_id(rs, rs[k].id) == k,
{
    let id = rs[k].id;
    assert(has_recipe(rs, id));
    let j = index_of_id(rs, id);
    if j < k {
        assert(rs[j].id < rs[k].id);
    } else if j > k {
        assert(rs[k].id < rs[j].id);
    }
}

/// The recipes kept in memory, in id order, and the id the next recipe gets.
pub struct RecipeStore {
    recipes: Vec<Recipe>,
    next_id: i32,
}

impl View for RecipeStore {
    type V = Seq<Recipe>;

    closed spec fn view(&self) -> Seq<Recipe> {
        self.recipes@
    }
}

impl RecipeStore {
    /// The id the next created or copied recipe gets.
    pub closed spec fn next_id(&self) -> int {
        self.next_id as int
    }

    /// Ids grow strictly along the list and are all below the next id.
    pub closed spec fn wf(&self) -> bool {
        &&& ids_ascending(self.recipes@)
        &&& forall|i: int| 0 <= i < self.recipes@.len() ==> (#[trigger] self.recipes@[i]).id < self.next_id
    }

    /// An empty store whose first recipe gets id 1.
    pub fn new() -> (s: RecipeStore)
        ensures
            s.wf(),
            s@ == Seq::<Recipe>::empty(),
            s.next_id() == 1,
    {
        RecipeStore { recipes: Vec::new(), next_id: 1 }
    }

    /// The position of the recipe with id `id`.
    fn position_of(&self, id: i32) -> (p: Option<usize>)
        requires
            self.wf(),
        ensures
            p matches Some(i) ==> i < self@.len() && index_of_id(self@, id) == i && recipe_with_id(
                self@,
                id,
            ) == Some(self@[i as int]),
            p is None ==> recipe_with_id(self@, id) is None,
    {
        let n = self.recipes.len();
        let mut i: usize = 0;
        while i < n
            invariant
                n == self.recipes@.len(),
                self.wf(),
                i <= n,
                forall|j: int| 0 <= j < i ==> (#[trigger] self.recipes@[j]).id != id,
            decreases n - i,
        {
            if self.recipes[i].id == id {
                proof {
                    lemma_found_by_id(self.recipes@, i as int);
                }
                return Some(i);
            }
            i = i + 1;
        }
        None
    }

    /// One page of previews of the recipes the user may view, in id order:
    /// the window of `page_window(q)` (page size default 20, at most 100),
    /// with the next page's number as cursor when recipes remain after it.
    /// The page size is a count, so it is not negative.
    pub fn list_recipes(&self, user_id: i32, q: PaginationQuery) -> (r: PaginatedResponse<RecipePreview>)
        requires
            0 <= window_limit(q),
            window_offset(q) <= i64::MAX,
            window_page(q) == i64::MAX ==> visible_to(self@, user_id).len() <= window_offset(q)
                + window_limit(q),
        ensures
            r.data@.len() == window_rows(
                visible_to(self@, user_id),
                window_offset(q),
                window_limit(q) as int,
            ).len(),
            forall|k: int|
                0 <= k < r.data@.len() ==> preview_matches(
                    visible_to(self@, user_id)[window_offset(q) + k],
                    #[trigger] r.data@[k],
                ),
            window_offset(q) + window_limit(q) < visible_to(self@, user_id).len() ==> (r.cursor matches Some(
                c,
            ) && c@ == decimal((window_page(q) + 1) as nat)),
            window_offset(q) + window_limit(q) >= visible_to(self@, user_id).len() ==> r.cursor is None,
    {
        let ghost q0 = q;
        let w = page_window(q);
        assert((w.page - 1) * w.limit >= 0) by (nonlinear_arith)
            requires
                w.page >= 1,
                w.limit >= 0,
        ;
        let off = w.offset;
        let lim = w.limit;
        let ghost rs = self.recipes@;
        let mut fetched: Vec<RecipePreview> = Vec::new();
        let mut seen: usize = 0;
        let n = self.recipes.len();
        let mut i: usize = 0;
        while i < n
            invariant
                n == rs.len(),
                rs == self.recipes@,
                i <= n,
                0 <= off,
                0 <= lim <= 100,
                seen <= i,
                seen == visible_to(rs.take(i as int), user_id).len(),
                fetched@.len() == window_len(seen as int, off as int, lim + 1),
                forall|k: int|
                    0 <= k < fetched@.len() ==> preview_matches(
                        visible_to(rs.take(i as int), user_id)[off + k],
                        #[trigger] fetched@[k],
                    ),
            decreases n - i,
        {
            let r = &self.recipes[i];
            assert(rs.take(i + 1).drop_last() =~= rs.take(i as int));
            assert(rs.take(i + 1).last() == rs[i as int]);
            if may_view_recipe(r, user_id) {
                if (seen as u128) >= (off as u128) && (seen as u128) - (off as u128) < (lim as u128) + 1 {
                    fetched.push(preview_of_ref(r));
                }
                seen = seen + 1;
            }
            i = i + 1;
        }
        assert(rs.take(n as int) =~= rs);
        let ghost vis = visible_to(rs, user_id);
        assert(window_rows(vis, off as int, lim as int).len() == window_len(vis.len() as int, off as int, lim as int));
        finish_page(fetched, w)
    }

    /// The recipe with id `id`, when the user may view it.
    pub fn get_recipe(&self, id: i32, user_id: i32) -> (r: Result<Recipe, AppError>)
        requires
            self.wf(),
        ensures
            recipe_with_id(self@, id) is None ==> (r matches Err(AppError::NotFound(m)) && m@
                == "Recipe not found"@),
            recipe_with_id(self@, id) matches Some(rec) && !viewable(rec, user_id) ==> (r matches Err(
                AppError::Forbidden,
            )),
            recipe_with_id(self@, id) matches Some(rec) ==> (viewable(rec, user_id) ==> (r matches Ok(
                c,
            ) && same_recipe(rec, c))),
    {
        match self.position_of(id) {
            None => Err(AppError::not_found("Recipe not found")),
            Some(i) => {
                let rec = &self.recipes[i];
                if may_view_recipe(rec, user_id) {
                    Ok(clone_recipe(rec))
                } else {
                    Err(AppError::Forbidden)
                }
            },
        }
    }

    /// Stores the written recipe under the next id, owned by the user, each
    /// tag and image kept once; a recipe without a name, or with an invalid
    /// ingredient line, is refused and nothing changes.
    pub fn create_recipe(&mut self, user_id: i32, payload: CreateRecipe, catalog: &HashMap<i32, String>, now: String) -> (r: Result<Recipe, AppError>)
        requires
            old(self).wf(),
            old(self).next_id() < i32::MAX,
            numbering_fits(payload),
        ensures
            final(self).wf(),
            payload.name@.len() == 0 ==> (r matches Err(AppError::Unprocessable(m)) && m@
                == "Name cannot be empty"@) && final(self)@ == old(self)@ && final(self).next_id()
                == old(self).next_id(),
            payload.name@.len() > 0 && !all_lines_valid(payload.sections@) ==> (r matches Err(
                AppError::Unprocessable(m),
            ) && m@ == "Invalid ingredient: "@ + debug_text_of(first_invalid_line(payload.sections@)))
                && final(self)@ == old(self)@ && final(self).next_id() == old(self).next_id(),
            payload.name@.len() > 0 && all_lines_valid(payload.sections@) ==> (r matches Ok(c)
                && final(self).next_id() == old(self).next_id() + 1 && final(self)@.len() == old(
                self,
            )@.len() + 1 && final(self)@.drop_last() == old(self)@ && recipe_stored(
                payload,
                old(self).next_id(),
                user_id as int,
                catalog@,
                now,
                final(self)@.last(),
            ) && same_recipe(final(self)@.last(), c) && (forall|i: int|
                0 <= i < old(self)@.len() ==> (#[trigger] old(self)@[i]).id < c.id) && recipe_with_id(
                final(self)@,
                c.id,
            ) == Some(final(self)@.last()) && (forall|other: i32|
                other != c.id ==> recipe_with_id(final(self)@, other) == recipe_with_id(
                    old(self)@,
                    other,
                ))),
    {
        match validate_recipe_payload(&payload) {
            Err(e) => {
                return Err(e);
            },
            Ok(()) => {},
        }
        match check_lines(&payload.sections) {
            Err(e) => {
                return Err(e);
            },
            Ok(()) => {},
        }
        let id = self.next_id;
        let mut recipe = map_create_to_recipe(catalog, id, user_id, payload, now);
        recipe.tags = texts_without_repeats(&recipe.tags);
        recipe.images = ids_without_repeats(&recipe.images);
        let out = clone_recipe(&recipe);
        self.next_id = id + 1;
        self.recipes.push(recipe);
        assert(self.recipes@.drop_last() =~= old(self).recipes@);
        proof {
            lemma_read_after_create(*old(self), *self);
        }
        Ok(out)
    }

    /// Replaces the content of a recipe the user may edit (each tag and
    /// image kept once), keeping its id, owner, roles, ratings and creation
    /// time; a refused request changes nothing.
    pub fn update_recipe(&mut self, id: i32, user_id: i32, payload: CreateRecipe, catalog: &HashMap<i32, String>, now: String) -> (r: Result<Recipe, AppError>)
        requires
            old(self).wf(),
            numbering_fits(payload),
        ensures
            final(self).wf(),
            final(self).next_id() == old(self).next_id(),
            r is Err ==> final(self)@ == old(self)@,
            payload.name@.len() == 0 ==> (r matches Err(AppError::Unprocessable(m)) && m@
                == "Name cannot be empty"@),
            payload.name@.len() > 0 && recipe_with_id(old(self)@, id) is None ==> (r matches Err(
                AppError::NotFound(m),
            ) && m@ == "Recipe not found"@),
            payload.name@.len() > 0 ==> (recipe_with_id(old(self)@, id) matches Some(o) && !editable(
                o,
                user_id,
            ) ==> (r matches Err(AppError::Forbidden))),
            payload.name@.len() > 0 && !all_lines_valid(payload.sections@) ==> (recipe_with_id(
                old(self)@,
                id,
            ) matches Some(o) && editable(o, user_id) ==> (r matches Err(AppError::Unprocessable(m))
                && m@ == "Invalid ingredient: "@ + debug_text_of(first_invalid_line(payload.sections@)))),
            payload.name@.len() > 0 && all_lines_valid(payload.sections@) ==> (recipe_with_id(
                old(self)@,
                id,
            ) matches Some(o) ==> (editable(o, user_id) ==> (r matches Ok(c) && final(self)@ == old(
                self,
            )@.update(
                index_of_id(old(self)@, id),
                final(self)@[index_of_id(old(self)@, id)],
            ) && recipe_updated(
                o,
                payload,
                catalog@,
                now,
                final(self)@[index_of_id(old(self)@, id)],
            ) && same_recipe(final(self)@[index_of_id(old(self)@, id)], c)))),
    {
        match validate_recipe_payload(&payload) {
            Err(e) => {
                return Err(e);
            },
            Ok(()) => {},
        }
        let i = match self.position_of(id) {
            None => {
                return Err(AppError::not_found("Recipe not found"));
            },
            Some(i) => i,
        };
        if !may_edit_recipe(&self.recipes[i], user_id) {
            return Err(AppError::Forbidden);
        }
        match check_lines(&payload.sections) {
            Err(e) => {
                return Err(e);
            },
            Ok(()) => {},
        }
        let ghost before = self.recipes@;
        let existing = self.recipes.remove(i);
        let m = map_create_to_recipe(catalog, id, existing.owner, payload, now);
        let updated = Recipe {
            id: m.id,
            owner: m.owner,
            editors: existing.editors,
            viewers: existing.viewers,
            name: m.name,
            tags: texts_without_repeats(&m.tags),
            source: m.source,
            rating: existing.rating,
            time: m.time,
            work_minutes: m.work_minutes,
            overall_minutes: m.overall_minutes,
            size_number: m.size_number,
            size_text: m.size_text,
            notes: m.notes,
            main_image: m.main_image,
            images: ids_without_repeats(&m.images),
            sections: m.sections,
            created_at: existing.created_at,
            updated_at: m.updated_at,
        };
        let out = clone_recipe(&updated);
        self.recipes.insert(i, updated);
        assert(self.recipes@ =~= before.update(i as int, self.recipes@[i as int]));
        Ok(out)
    }

    /// Removes a recipe the user owns; a refused request changes nothing.
    pub fn delete_recipe(&mut self, id: i32, user_id: i32) -> (r: Result<(), AppError>)
        requires
            old(self).wf(),
        ensures
            final(self).wf(),
            final(self).next_id() == old(self).next_id(),
            r is Err ==> final(self)@ == old(self)@,
            recipe_with_id(old(self)@, id) is None ==> (r matches Err(AppError::NotFound(m)) && m@
                == "Recipe not found"@),
            recipe_with_id(old(self)@, id) matches Some(o) && o.owner != user_id ==> (r matches Err(
                AppError::Forbidden,
            )),
            recipe_with_id(old(self)@, id) matches Some(o) && o.owner == user_id ==> r is Ok
                && final(self)@ == old(self)@.remove(index_of_id(old(self)@, id)),
    {
        let i = match self.position_of(id) {
            None => {
                return Err(AppError::not_found("Recipe not found"));
            },
            Some(i) => i,
        };
        if self.recipes[i].owner != user_id {
            return Err(AppError::Forbidden);
        }
        let ghost before = self.recipes@;
        let _removed = self.recipes.remove(i);
        assert forall|a: int, b: int| 0 <= a < b < self.recipes@.len() implies self.recipes@[a].id
            < self.recipes@[b].id by {
            if a >= i {
                assert(self.recipes@[a] == before[a + 1]);
            }
            if b >= i {
                assert(self.recipes@[b] == before[b + 1]);
            }
        }
        assert forall|a: int| 0 <= a < self.recipes@.len() implies (
        #[trigger] self.recipes@[a]).id < self.next_id by {
            if a >= i {
                assert(self.recipes@[a] == before[a + 1]);
            }
        }
        Ok(())
    }

    /// Stores a copy of a recipe the user may
    /// view under the next id, owned by the user, with no editors or
    /// viewers and ` (Copy)` appended to its name; a refused request
    /// changes nothing.
    pub fn copy_recipe(&mut self, id: i32, user_id: i32, now: String) -> (r: Result<Recipe, AppError>)
        requires
            old(self).wf(),
            old(self).next_id() < i32::MAX,
        ensures
            final(self).wf(),
            r is Err ==> final(self)@ == old(self)@ && final(self).next_id() == old(self).next_id(),
            recipe_with_id(old(self)@, id) is None ==> (r matches Err(AppError::NotFound(m)) && m@
                == "Recipe not found"@),
            recipe_with_id(old(self)@, id) matches Some(o) && !viewable(o, user_id) ==> (r matches Err(
                AppError::Forbidden,
            )),
            recipe_with_id(old(self)@, id) matches Some(o) ==> (viewable(o, user_id) ==> (r matches Ok(
                c,
            ) && final(self).next_id() == old(self).next_id() + 1 && final(self)@.len() == old(
                self,
            )@.len() + 1 && final(self)@.drop_last() == old(self)@ && recipe_copied_as(
                o,
                old(self).next_id(),
                user_id as int,
                now,
                final(self)@.last(),
            ) && same_recipe(final(self)@.last(), c) && (forall|i: int|
                0 <= i < old(self)@.len() ==> (#[trigger] old(self)@[i]).id < c.id) && recipe_with_id(
                final(self)@,
                c.id,
            ) == Some(final(self)@.last()) && (forall|other: i32|
                other != c.id ==> recipe_with_id(final(self)@, other) == recipe_with_id(
                    old(self)@,
                    other,
                )) && recipe_with_id(final(self)@, id) == Some(o))),
    {
        proof {
            reveal_strlit(" (Copy)");
        }
        let i = match self.position_of(id) {
            None => {
                return Err(AppError::not_found("Recipe not found"));
            },
            Some(i) => i,
        };
        let existing = &self.recipes[i];
        if !may_view_recipe(existing, user_id) {
            return Err(AppError::Forbidden);
        }
        let new_id = self.next_id;
        let copied = Recipe {
            id: new_id,
            owner: user_id,
            editors: Vec::new(),
            viewers: Vec::new(),
            name: existing.name.clone().concat(" (Copy)"),
            tags: clone_texts(&existing.tags),
            source: clone_text(&existing.source),
            rating: clone_ratings(&existing.rating),
            time: clone_text(&existing.time),
            work_minutes: existing.work_minutes,
            overall_minutes: existing.overall_minutes,
            size_number: existing.size_number,
            size_text: clone_text(&existing.size_text),
            notes: clone_texts(&existing.notes),
            main_image: existing.main_image,
            images: clone_ids(&existing.images),
            sections: clone_sections(&existing.sections),
            created_at: Some(now.clone()),
            updated_at: Some(now),
        };
        let out = clone_recipe(&copied);
        self.next_id = new_id + 1;
        self.recipes.push(copied);
        assert(self.recipes@.drop_last() =~= old(self).recipes@);
        proof {
            lemma_read_after_create(*old(self), *self);
        }
        Ok(out)
    }
}


/// Read after create: once `create_recipe` or `copy_recipe` has stored a
/// recipe under the next id, that id finds it, its owner may view it, and
/// every other id (the copied one among them) finds what it found before.
pub proof fn lemma_read_after_create(before: RecipeStore, after: RecipeStore)
    requires
        before.wf(),
        after@.len() == before@.len() + 1,
        after@.drop_last() == before@,
        after@.last().id == before.next_id(),
    ensures
        recipe_with_id(after@, after@.last().id) == Some(after@.last()),
        viewable(after@.last(), after@.last().owner),
        recipe_with_id(before@, after@.last().id) is None,
        forall|i: int| 0 <= i < before@.len() ==> (#[trigger] before@[i]).id < after@.last().id,
        forall|id: i32| id != after@.last().id ==> recipe_with_id(after@, id) == recipe_with_id(before@, id),
{
    let rs = after@;
    let n = before@.len();
    assert forall|i: int| 0 <= i < n implies rs[i] == before@[i] by {
        assert(rs[i] == rs.drop_last()[i]);
    }
    assert(before.recipes@ == before@);
    assert forall|i: int, j: int| 0 <= i < j < rs.len() implies rs[i].id < rs[j].id by {
        if j < n {
            assert(before@[i].id < before@[j].id);
        } else {
            assert(before.recipes@[i].id < before.next_id);
        }
    }
    lemma_found_by_id(rs, n as int);
    assert forall|i: int| 0 <= i < n implies (#[trigger] before@[i]).id < rs.last().id by {
        assert(before.recipes@[i].id < before.next_id);
    }
    assert forall|id: i32| id != rs.last().id implies recipe_with_id(rs, id) == recipe_with_id(before@, id) by {
        if has_recipe(rs, id) {
            let j = index_of_id(rs, id);
            assert(j < n);
            lemma_found_by_id(rs, j);
            lemma_found_by_id(before@, j);
        } else {
            assert forall|i: int| 0 <= i < n implies (#[trigger] before@[i]).id != id by {
                assert(rs[i] == before@[i]);
            }
        }
    }
}

/// Read after update: once `update_recipe` has replaced the recipe with id
/// `id` by `n` (which keeps the id), `id` finds `n` and every other id finds
/// what it found before.
pub proof fn lemma_read_after_update(before: RecipeStore, after: RecipeStore, id: i32, n: Recipe)
    requires
        before.wf(),
        has_recipe(before@, id),
        n.id == id,
        after@ == before@.update(index_of_id(before@, id), n),
    ensures
        recipe_with_id(after@, id) == Some(n),
        forall|other: i32| other != id ==> recipe_with_id(after@, other) == recipe_with_id(before@, other),
{
    let k = index_of_id(before@, id);
    let rs = after@;
    assert(before.recipes@ == before@);
    assert forall|i: int, j: int| 0 <= i < j < rs.len() implies rs[i].id < rs[j].id by {
        assert(before@[i].id < before@[j].id);
    }
    lemma_found_by_id(rs, k);
    assert forall|other: i32| other != id implies recipe_with_id(rs, other) == recipe_with_id(before@, other) by {
        if has_recipe(rs, other) {
            let j = index_of_id(rs, other);
            lemma_found_by_id(rs, j);
            lemma_found_by_id(before@, j);
        } else {
            assert forall|i: int| 0 <= i < before@.len() implies (#[trigger] before@[i]).id != other by {
                if i != k {
                    assert(rs[i] == before@[i]);
                }
            }
        }
    }
}

/// Read after delete: once `delete_recipe` has removed the recipe with id
/// `id`, `id` finds nothing (a read answers `NotFound`) and every other id
/// finds what it found before.
pub proof fn lemma_read_after_delete(before: RecipeStore, after: RecipeStore, id: i32)
    requires
        before.wf(),
        has_recipe(before@, id),
        after@ == before@.remove(index_of_id(before@, id)),
    ensures
        recipe_with_id(after@, id) is None,
        forall|other: i32| other != id ==> recipe_with_id(after@, other) == recipe_with_id(before@, other),
{
    let k = index_of_id(before@, id);
    let rs = after@;
    assert(before.recipes@ == before@);
    assert forall|i: int| 0 <= i < rs.len() implies #[trigger] rs[i] == (if i < k {
        before@[i]
    } else {
        before@[i + 1]
    }) by {}
    assert forall|i: int, j: int| 0 <= i < j < rs.len() implies rs[i].id < rs[j].id by {
        let bi = if i < k { i } else { i + 1 };
        let bj = if j < k { j } else { j + 1 };
        assert(rs[i] == before@[bi]);
        assert(rs[j] == before@[bj]);
        assert(before@[bi].id < before@[bj].id);
    }
    assert forall|i: int| 0 <= i < rs.len() implies (#[trigger] rs[i]).id != id by {
        let bi = if i < k { i } else { i + 1 };
        assert(rs[i] == before@[bi]);
        assert(before@[k].id == id);
        if bi < k {
            assert(before@[bi].id < before@[k].id);
        } else {
            assert(before@[k].id < before@[bi].id);
        }
    }
    assert forall|other: i32| other != id implies recipe_with_id(rs, other) == recipe_with_id(before@, other) by {
        if has_recipe(rs, other) {
            let j = index_of_id(rs, other);
            let bj = if j < k { j } else { j + 1 };
            assert(rs[j] == before@[bj]);
            lemma_found_by_id(rs, j);
            lemma_found_by_id(before@, bj);
        } else {
            assert forall|i: int| 0 <= i < before@.len() implies (#[trigger] before@[i]).id != other by {
                if i < k {
                    assert(rs[i] == before@[i]);
                } else if i > k {
                    assert(rs[i - 1] == before@[i]);
                }
            }
        }
    }
}

/// A listing holds exactly the recipes the user may view, each once, in
/// ascending id order.
pub proof fn lemma_listing_is_visible_recipes(rs: Seq<Recipe>, user: i32)
    requires
        ids_ascending(rs),
    ensures
        ids_ascending(visible_to(rs, user)),
        forall|k: int|
            0 <= k < visible_to(rs, user).len() ==> viewable(#[trigger] visible_to(rs, user)[k], user)
                && rs.contains(visible_to(rs, user)[k]),
        forall|i: int| 0 <= i < rs.len() && viewable(#[trigger] rs[i], user) ==> visible_to(rs, user).contains(rs[i]),
    decreases rs.len(),
{
    if rs.len() > 0 {
        let prev = rs.drop_last();
        assert(ids_ascending(prev));
        lemma_listing_is_visible_recipes(prev, user);
        let v = visible_to(rs, user);
        let pv = visible_to(prev, user);
        assert forall|k: int| 0 <= k < pv.len() implies rs.contains(#[trigger] pv[k]) by {
            let w = choose|w: int| 0 <= w < prev.len() && prev[w] == pv[k];
            assert(rs[w] == pv[k]);
        }
        if viewable(rs.last(), user) {
            assert(v == pv.push(rs.last()));
            assert forall|k: int| 0 <= k < pv.len() implies (#[trigger] pv[k]).id < rs.last().id by {
                let w = choose|w: int| 0 <= w < prev.len() && prev[w] == pv[k];
                assert(rs[w] == pv[k]);
            }
            assert forall|k: int| 0 <= k < v.len() implies rs.contains(#[trigger] v[k]) by {
                if k < pv.len() {
                    assert(v[k] == pv[k]);
                } else {
                    assert(rs[rs.len() - 1] == v[k]);
                }
            }
            assert forall|i: int| 0 <= i < rs.len() && viewable(#[trigger] rs[i], user) implies v.contains(rs[i]) by {
                if i < rs.len() - 1 {
                    assert(prev[i] == rs[i]);
                    let w = choose|w: int| 0 <= w < pv.len() && pv[w] == prev[i];
                    assert(v[w] == rs[i]);
                } else {
                    assert(v[pv.len() as int] == rs[i]);
                }
            }
        } else {
            assert forall|i: int| 0 <= i < rs.len() && viewable(#[trigger] rs[i], user) implies v.contains(rs[i]) by {
                assert(i < rs.len() - 1);
                assert(prev[i] == rs[i]);
            }
        }
    }
}


/// The store's invariant, as stated over its view: ids ascend along the
/// list and every id is below the id the next recipe gets.
pub proof fn lemma_store_ids(s: RecipeStore)
    requires
        s.wf(),
    ensures
        ids_ascending(s@),
        forall|i: int| 0 <= i < s@.len() ==> (#[trigger] s@[i]).id < s.next_id(),
{
}


/// Recipe ids widened to 64 bits.
pub open spec fn wide_ids(ids: Seq<i32>) -> Seq<i64> {
    ids.map_values(|x: i32| x as i64)
}

proof fn lemma_wide_contains(ids: Seq<i32>, u: i32)
    ensures
        wide_ids(ids).contains(u as i64) == ids.contains(u),
{
    if ids.contains(u) {
        let i = choose|i: int| 0 <= i < ids.len() && ids[i] == u;
        assert(wide_ids(ids)[i] == u as i64);
    }
    if wide_ids(ids).contains(u as i64) {
        let i = choose|i: int| 0 <= i < wide_ids(ids).len() && wide_ids(ids)[i] == u as i64;
        assert(ids[i] == u);
    }
}

/// The store grants what the permission matrix grants: a user may view a
/// stored recipe exactly when the matrix lets them view it, and replace it
/// exactly when the matrix lets them edit it.
pub proof fn lemma_store_follows_permission_matrix(r: Recipe, user: i32)
    ensures
        viewable(r, user) == can_view(r.owner as i64, wide_ids(r.editors@), wide_ids(r.viewers@), user as i64),
        editable(r, user) == can_edit(r.owner as i64, wide_ids(r.editors@), user as i64),
{
    lemma_wide_contains(r.editors@, user);
    lemma_wide_contains(r.viewers@, user);
}

} // verus!
