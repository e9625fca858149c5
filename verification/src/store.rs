//! The in-memory recipe store behind the service routes: create,
//! read, update and delete over recipes with unique ids. The caller
//! owns the store and hands it to the handlers.

use vstd::prelude::*;
use crate::model::Recipe;
use crate::model::RecipeDto;
use crate::model::RecipeView;
use crate::model::to_recipe_dto;

verus! {

/// The index of the first recipe with the given id, if any.
pub open spec fn sp_find(s: Seq<RecipeView>, id: i32) -> Option<int>
    decreases s.len(),
{
    if s.len() == 0 {
        None
    } else if s[0].id == id {
        Some(0)
    } else {
        match sp_find(s.drop_first(), id) {
            Some(i) => Some(i + 1),
            None => None,
        }
    }
}

pub proof fn lemma_sp_find_characterization(s: Seq<RecipeView>, id: i32)
    ensures
        match sp_find(s, id) {
            Some(i) => 0 <= i < s.len() && s[i].id == id && forall|j: int|
                0 <= j < i ==> (#[trigger] s[j]).id != id,
            None => forall|j: int| 0 <= j < s.len() ==> (#[trigger] s[j]).id != id,
        },
    decreases s.len(),
{
    if s.len() > 0 {
        lemma_sp_find_characterization(s.drop_first(), id);
        assert forall|j: int| 1 <= j < s.len() implies s[j] == s.drop_first()[j - 1] by {}
    }
}

/// Some recipe in the sequence has the given id.
pub open spec fn sp_contains_id(s: Seq<RecipeView>, id: i32) -> bool {
    exists|i: int| 0 <= i < s.len() && (#[trigger] s[i]).id == id
}

/// The in-memory store: a sequence of recipes with pairwise distinct
/// ids. Its view is that sequence of recipe views, in storage order.
pub struct RecipeStore {
    recipes: Vec<Recipe>,
}

impl View for RecipeStore {
    type V = Seq<RecipeView>;

    closed spec fn view(&self) -> Seq<RecipeView> {
        self.recipes.deep_view()
    }
}

impl RecipeStore {
    /// Ids are pairwise distinct.
    pub open spec fn wf(&self) -> bool {
        forall|i: int, j: int|
            0 <= i < j < self@.len() ==> (#[trigger] self@[i]).id != (#[trigger] self@[j]).id
    }

    /// An empty store.
    pub fn new() -> (r: RecipeStore)
        ensures
            r@ =~= Seq::<RecipeView>::empty(),
            r.wf(),
    {
        let r = RecipeStore { recipes: Vec::new() };
        proof {
            assert(r@ =~= Seq::<RecipeView>::empty());
        }
        r
    }

    /// The index of the recipe with the given id, if present.
    fn find_index(&self, id: i32) -> (r: Option<usize>)
        ensures
            match r {
                Some(i) => sp_find(self@, id) == Some(i as int),
                None => sp_find(self@, id) is None,
            },
    {
        proof {
            lemma_sp_find_characterization(self@, id);
        }
        let n = self.recipes.len();
        let mut i: usize = 0;
        while i < n
            invariant
                n == self.recipes.len(),
                self@.len() == n,
                0 <= i <= n,
                forall|j: int| 0 <= j < i ==> (#[trigger] self@[j]).id != id,
                match sp_find(self@, id) {
                    Some(k) => 0 <= k < self@.len() && self@[k].id == id && forall|j: int|
                        0 <= j < k ==> (#[trigger] self@[j]).id != id,
                    None => forall|j: int| 0 <= j < self@.len() ==> (#[trigger] self@[j]).id != id,
                },
            decreases n - i,
        {
            if self.recipes[i].id == id {
                assert(self@[i as int].id == id);
                return Some(i);
            }
            assert(self@[i as int].id != id);
            i = i + 1;
        }
        None
    }

    /// Reads the recipe with the given id, as its transfer shape.
    pub fn get_recipe_by_id(&self, id: i32) -> (r: Option<RecipeDto>)
        ensures
            match r {
                Some(dto) => {
                    &&& sp_find(self@, id) matches Some(i)
                    &&& 0 <= i < self@.len()
                    &&& dto@ == self@[i]
                },
                None => sp_find(self@, id) is None,
            },
    {
        match self.find_index(id) {
            Some(i) => {
                proof {
                    lemma_sp_find_characterization(self@, id);
                }
                Some(to_recipe_dto(&self.recipes[i]))
            },
            None => None,
        }
    }

    /// Reads every recipe, in storage order; `None` when the store is
    /// empty.
    pub fn get_all_recipes(&self) -> (r: Option<Vec<RecipeDto>>)
        ensures
            match r {
                Some(v) => self@.len() > 0 && v.deep_view() == self@,
                None => self@.len() == 0,
            },
    {
        let n = self.recipes.len();
        if n == 0 {
            return None;
        }
        let mut out: Vec<RecipeDto> = Vec::new();
        let mut i: usize = 0;
        while i < n
            invariant
                n == self.recipes.len(),
                self@.len() == n,
                0 <= i <= n,
                out@.len() == i,
                forall|k: int| 0 <= k < i ==> (#[trigger] out@[k]).deep_view() == self@[k],
            decreases n - i,
        {
            let dto = to_recipe_dto(&self.recipes[i]);
            proof {
                assert(dto.deep_view() == self@[i as int]);
            }
            out.push(dto);
            i = i + 1;
        }
        proof {
            assert forall|k: int| 0 <= k < out.deep_view().len() implies #[trigger] out.deep_view()[k]
                == self@[k] by {
                assert(out.deep_view()[k] == out@[k].deep_view());
            }
            assert(out.deep_view() =~= self@);
        }
        Some(out)
    }

    /// Writes the recipe under its id. Reports `true` when the id was
    /// new; an existing recipe with that id is overwritten and the
    /// call reports `false`.
    pub fn add_recipe(&mut self, recipe: Recipe) -> (r: bool)
        requires
            old(self).wf(),
        ensures
            final(self).wf(),
            match sp_find(old(self)@, recipe@.id) {
                None => r && final(self)@ == old(self)@.push(recipe@),
                Some(i) => !r && final(self)@ == old(self)@.update(i, recipe@),
            },
    {
        proof {
            lemma_sp_find_characterization(old(self)@, recipe@.id);
        }
        match self.find_index(recipe.id) {
            Some(i) => {
                self.recipes.set(i, recipe);
                proof {
                    assert(final(self)@ =~= old(self)@.update(
                        sp_find(old(self)@, recipe@.id)->Some_0,
                        recipe@,
                    ));
                }
                false
            },
            None => {
                self.recipes.push(recipe);
                proof {
                    assert(final(self)@ =~= old(self)@.push(recipe@));
                }
                true
            },
        }
    }

    /// Writes the recipe under its id, inserting or replacing, and
    /// returns its transfer shape.
    pub fn update_recipe(&mut self, updated_recipe: Recipe) -> (r: RecipeDto)
        requires
            old(self).wf(),
        ensures
            final(self).wf(),
            r@ == updated_recipe@,
            match sp_find(old(self)@, updated_recipe@.id) {
                None => final(self)@ == old(self)@.push(updated_recipe@),
                Some(i) => final(self)@ == old(self)@.update(i, updated_recipe@),
            },
    {
        let dto = to_recipe_dto(&updated_recipe);
        self.add_recipe(updated_recipe);
        dto
    }

    /// Removes the recipe with the given id; reports whether one was
    /// there.
    pub fn delete_recipe(&mut self, id: i32) -> (r: bool)
        requires
            old(self).wf(),
        ensures
            final(self).wf(),
            match sp_find(old(self)@, id) {
                Some(i) => r && final(self)@ == old(self)@.remove(i),
                None => !r && final(self)@ == old(self)@,
            },
    {
        proof {
            lemma_sp_find_characterization(old(self)@, id);
        }
        match self.find_index(id) {
            Some(i) => {
                self.recipes.remove(i);
                proof {
                    assert(final(self)@ =~= old(self)@.remove(sp_find(old(self)@, id)->Some_0));
                }
                true
            },
            None => false,
        }
    }
}

} // verus!
