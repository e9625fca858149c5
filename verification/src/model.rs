//! The domain shapes: the stored `Recipe` and `User` models, their
//! transfer counterparts `RecipeDto` and `UserDto`, and the assemblers
//! between them. Model and transfer shape carry the same fields, so
//! both sides of each pair share one mathematical view.

use vstd::prelude::*;

verus! {

/// The mathematical content of a user: an id and two texts.
pub struct UserView {
    pub id: u32,
    pub name: Seq<char>,
    pub email: Seq<char>,
}

/// The mathematical content of a recipe.
pub struct RecipeView {
    pub id: i32,
    pub title: Seq<char>,
    pub ingredients: Seq<Seq<char>>,
    pub instructions: Seq<char>,
    pub comments: Seq<Seq<char>>,
    pub created_by: UserView,
}

/// A user as stored.
#[derive(Debug)]
pub struct User {
    pub id: u32,
    pub name: String,
    pub email: String,
}

/// A user as carried over the wire.
#[derive(Debug)]
pub struct UserDto {
    pub id: u32,
    pub name: String,
    pub email: String,
}

/// A recipe as stored.
#[derive(Debug)]
pub struct Recipe {
    pub id: i32,
    pub title: String,
    pub ingredients: Vec<String>,
    pub instructions: String,
    pub comments: Vec<String>,
    pub created_by: User,
}

/// A recipe as carried over the wire.
#[derive(Debug)]
pub struct RecipeDto {
    pub id: i32,
    pub title: String,
    pub ingredients: Vec<String>,
    pub instructions: String,
    pub comments: Vec<String>,
    pub created_by: UserDto,
}

impl View for User {
    type V = UserView;

    open spec fn view(&self) -> UserView {
        UserView { id: self.id, name: self.name@, email: self.email@ }
    }
}

impl View for UserDto {
    type V = UserView;

    open spec fn view(&self) -> UserView {
        UserView { id: self.id, name: self.name@, email: self.email@ }
    }
}

impl View for Recipe {
    type V = RecipeView;

    open spec fn view(&self) -> RecipeView {
        RecipeView {
            id: self.id,
            title: self.title@,
            ingredients: self.ingredients.deep_view(),
            instructions: self.instructions@,
            comments: self.comments.deep_view(),
            created_by: self.created_by@,
        }
    }
}

impl View for RecipeDto {
    type V = RecipeView;

    open spec fn view(&self) -> RecipeView {
        RecipeView {
            id: self.id,
            title: self.title@,
            ingredients: self.ingredients.deep_view(),
            instructions: self.instructions@,
            comments: self.comments.deep_view(),
            created_by: self.created_by@,
        }
    }
}

impl DeepView for Recipe {
    type V = RecipeView;

    open spec fn deep_view(&self) -> RecipeView {
        self@
    }
}

impl DeepView for RecipeDto {
    type V = RecipeView;

    open spec fn deep_view(&self) -> RecipeView {
        self@
    }
}

/// A copy of a vector of strings with the same content.
fn clone_string_vec(v: &Vec<String>) -> (r: Vec<String>)
    ensures
        r.deep_view() == v.deep_view(),
{
    let r = v.clone();
    proof {
        assert forall|i: int| 0 <= i < v@.len() implies r@[i] == v@[i] by {
            assert(vstd::pervasive::cloned::<String>(v@[i], r@[i]));
        }
        assert(r.deep_view() =~= v.deep_view());
    }
    r
}

/// Builds the transfer shape of a user, field for field.
pub fn to_user_dto(user: &User) -> (r: UserDto)
    ensures
        r@ == user@,
{
    UserDto { id: user.id, name: user.name.clone(), email: user.email.clone() }
}

/// Builds a user from its transfer shape, field for field.
pub fn from_user_dto(user_dto: &UserDto) -> (r: User)
    ensures
        r@ == user_dto@,
{
    User { id: user_dto.id, name: user_dto.name.clone(), email: user_dto.email.clone() }
}

/// Builds the transfer shape of a recipe, field for field.
pub fn to_recipe_dto(recipe: &Recipe) -> (r: RecipeDto)
    ensures
        r@ == recipe@,
{
    RecipeDto {
        id: recipe.id,
        title: recipe.title.clone(),
        ingredients: clone_string_vec(&recipe.ingredients),
        instructions: recipe.instructions.clone(),
        comments: clone_string_vec(&recipe.comments),
        created_by: to_user_dto(&recipe.created_by),
    }
}

/// Builds a recipe from its transfer shape, field for field.
pub fn from_recipe_dto(recipe_dto: &RecipeDto) -> (r: Recipe)
    ensures
        r@ == recipe_dto@,
{
    Recipe {
        id: recipe_dto.id,
        title: recipe_dto.title.clone(),
        ingredients: clone_string_vec(&recipe_dto.ingredients),
        instructions: recipe_dto.instructions.clone(),
        comments: clone_string_vec(&recipe_dto.comments),
        created_by: from_user_dto(&recipe_dto.created_by),
    }
}

} // verus!
