//! A user-created exercise: a name, a free-form description, the muscle
//! groups it works, and the equipment it needs.

use vstd::prelude::*;

use crate::codec::encode_contents;
use crate::errors::ResultError;
use crate::errors::ResultErrorView;
use crate::json::render_contents;
use crate::res_view;
use crate::user_profile::get_current_user;
use crate::user_profile::get_current_user_spec;
use crate::user_profile::read_profiles;
use crate::user_profile::read_profiles_spec;
use crate::user_profile::spec_upsert;
use crate::user_profile::UserProfileView;
use crate::user_profile::UsersView;
use crate::utils::ContentsView;
use crate::utils::FileContents;
use crate::utils::ReadOutcome;
use crate::utils::ReadOutcomeView;
use crate::views_of;

verus! {

#[derive(Debug, PartialEq)]
pub struct Exercise {
    pub name: String,
    pub description: String,
    pub muscle_groups: Vec<String>,
    pub equipment: String,
}

/// Mathematical image of an `Exercise`.
pub struct ExerciseView {
    pub name: Seq<char>,
    pub description: Seq<char>,
    pub muscle_groups: Seq<Seq<char>>,
    pub equipment: Seq<char>,
}

impl View for Exercise {
    type V = ExerciseView;

    open spec fn view(&self) -> ExerciseView {
        ExerciseView {
            name: self.name@,
            description: self.description@,
            muscle_groups: views_of(self.muscle_groups@),
            equipment: self.equipment@,
        }
    }
}

impl Exercise {
    /// A missing description stands for the empty one.
    pub fn new(
        name: String,
        description: Option<String>,
        muscle_groups: Vec<String>,
        equipment: String,
    ) -> (e: Exercise)
        ensures
            e@ == (ExerciseView {
                name: name@,
                description: match description {
                    Some(d) => d@,
                    None => Seq::<char>::empty(),
                },
                muscle_groups: views_of(muscle_groups@),
                equipment: equipment@,
            }),
    {
        let description = match description {
            Some(d) => d,
            None => String::new(),
        };
        Exercise { name, description, muscle_groups, equipment }
    }

    pub fn set_exercise_name(&mut self, name: String)
        ensures
            final(self)@ == (ExerciseView { name: name@, ..old(self)@ }),
    {
        self.name = name;
    }

    pub fn set_exercise_description(&mut self, description: String)
        ensures
            final(self)@ == (ExerciseView { description: description@, ..old(self)@ }),
    {
        self.description = description;
    }

    pub fn set_exercise_muscle_groups(&mut self, muscle_groups: Vec<String>)
        ensures
            final(self)@ == (ExerciseView {
                muscle_groups: views_of(muscle_groups@),
                ..old(self)@
            }),
    {
        self.muscle_groups = muscle_groups;
    }

    pub fn set_exercise_equipment(&mut self, equipment: String)
        ensures
            final(self)@ == (ExerciseView { equipment: equipment@, ..old(self)@ }),
    {
        self.equipment = equipment;
    }

    pub fn get_name(&self) -> (r: &String)
        ensures
            r@ == self@.name,
    {
        &self.name
    }
}

/// The exercises of `es` whose name is not `nm`.
pub open spec fn exercises_without_name(es: Seq<ExerciseView>, nm: Seq<char>) -> Seq<ExerciseView> {
    es.filter(|e: ExerciseView| e.name != nm)
}

impl Clone for Exercise {
    fn clone(&self) -> (r: Self)
        ensures
            r@ == self@,
    {
        let muscle_groups = self.muscle_groups.clone();
        proof {
            assert forall|i: int| 0 <= i < self.muscle_groups@.len() implies views_of(
                muscle_groups@,
            )[i] == views_of(self.muscle_groups@)[i] by {
                assert(cloned::<String>(self.muscle_groups[i], muscle_groups[i]));
            }
            assert(views_of(muscle_groups@) =~= views_of(self.muscle_groups@));
        }
        Exercise {
            name: self.name.clone(),
            description: self.description.clone(),
            muscle_groups,
            equipment: self.equipment.clone(),
        }
    }
}

/// The position of the first exercise named `nm`, or -1 when there is
/// none.
pub open spec fn exercise_index_of(es: Seq<ExerciseView>, nm: Seq<char>) -> int
    decreases es.len(),
{
    if es.len() == 0 {
        -1
    } else if es[0].name == nm {
        0
    } else if exercise_index_of(es.skip(1), nm) == -1 {
        -1
    } else {
        1 + exercise_index_of(es.skip(1), nm)
    }
}

/// When position `i` holds the name and nothing before it does, `i` is
/// exactly what `exercise_index_of` returns.
pub proof fn lemma_exercise_index_is(es: Seq<ExerciseView>, nm: Seq<char>, i: int)
    requires
        0 <= i < es.len(),
        es[i].name == nm,
        forall|j: int| 0 <= j < i ==> es[j].name != nm,
    ensures
        exercise_index_of(es, nm) == i,
    decreases i,
{
    if i > 0 {
        assert(es.skip(1)[i - 1] == es[i]);
        assert forall|j: int| 0 <= j < i - 1 implies es.skip(1)[j].name != nm by {
            assert(es.skip(1)[j] == es[j + 1]);
        }
        lemma_exercise_index_is(es.skip(1), nm, i - 1);
    }
}

/// When no exercise has the name, `exercise_index_of` returns -1.
pub proof fn lemma_exercise_index_none(es: Seq<ExerciseView>, nm: Seq<char>)
    requires
        forall|j: int| 0 <= j < es.len() ==> es[j].name != nm,
    ensures
        exercise_index_of(es, nm) == -1,
    decreases es.len(),
{
    if es.len() > 0 {
        assert forall|j: int| 0 <= j < es.skip(1).len() implies es.skip(1)[j].name != nm by {
            assert(es.skip(1)[j] == es[j + 1]);
        }
        lemma_exercise_index_none(es.skip(1), nm);
    }
}

/// The registry document text after adding an exercise to the current
/// profile's created list.
pub open spec fn create_exercise_spec(
    ro: ReadOutcomeView,
    po: ReadOutcomeView,
    nm: Seq<char>,
    description: Option<Seq<char>>,
    muscle_groups: Seq<Seq<char>>,
    equipment: Seq<char>,
) -> Result<Seq<char>, ResultErrorView> {
    match read_profiles_spec(ro) {
        Err(e) => Err(e),
        Ok(uv) => match get_current_user_spec(ro, po) {
            Err(e) => Err(e),
            Ok(pv) => {
                let ev = ExerciseView {
                    name: nm,
                    description: match description {
                        Some(d) => d,
                        None => Seq::<char>::empty(),
                    },
                    muscle_groups,
                    equipment,
                };
                let pv2 = UserProfileView {
                    created_exercises: pv.created_exercises.push(ev),
                    ..pv
                };
                Ok(
                    render_contents(
                        ContentsView::Users(UsersView { users: spec_upsert(uv.users, pv2) }),
                    ),
                )
            },
        },
    }
}

/// Adds an exercise to the current profile and returns the registry
/// document text to write back.
pub fn create_exercise(
    reg: &ReadOutcome,
    ptr: &ReadOutcome,
    name: String,
    description: Option<String>,
    muscle_groups: Vec<String>,
    equipment: String,
) -> (r: Result<String, ResultError>)
    ensures
        res_view(r) == create_exercise_spec(
            reg@,
            ptr@,
            name@,
            match description {
                Some(d) => Some(d@),
                None => None,
            },
            views_of(muscle_groups@),
            equipment@,
        ),
{
    let mut users = match read_profiles(reg) {
        Ok(users) => users,
        Err(e) => {
            return Err(e);
        },
    };
    let mut user = match get_current_user(reg, ptr) {
        Ok(user) => user,
        Err(e) => {
            return Err(e);
        },
    };
    user.add_exercise(Exercise::new(name, description, muscle_groups, equipment));
    users.upsert(user);
    Ok(encode_contents(&FileContents::Users(users)))
}

/// The current profile's first exercise with the given name, or an
/// error when it has none.
pub open spec fn get_exercise_spec(ro: ReadOutcomeView, po: ReadOutcomeView, nm: Seq<char>) -> Result<
    ExerciseView,
    ResultErrorView,
> {
    match get_current_user_spec(ro, po) {
        Err(e) => Err(e),
        Ok(pv) => if exercise_index_of(pv.created_exercises, nm) == -1 {
            Err(ResultErrorView::OtherError("Exercise not found"@))
        } else {
            Ok(pv.created_exercises[exercise_index_of(pv.created_exercises, nm)])
        },
    }
}

/// Looks the named exercise up in the current profile's created list.
pub fn get_exercise(reg: &ReadOutcome, ptr: &ReadOutcome, name: String) -> (r: Result<
    Exercise,
    ResultError,
>)
    ensures
        res_view(r) == get_exercise_spec(reg@, ptr@, name@),
{
    let user = match get_current_user(reg, ptr) {
        Ok(user) => user,
        Err(e) => {
            return Err(e);
        },
    };
    let exercises = user.get_exercises();
    let mut i: usize = 0;
    while i < exercises.len()
        invariant
            i <= exercises@.len(),
            get_current_user_spec(reg@, ptr@) == Ok::<UserProfileView, ResultErrorView>(user@),
            views_of(exercises@) == user@.created_exercises,
            forall|j: int| 0 <= j < i ==> views_of(exercises@)[j].name != name@,
        decreases exercises@.len() - i,
    {
        if *exercises[i].get_name() == name {
            proof {
                assert(views_of(exercises@)[i as int] == exercises[i as int]@);
                lemma_exercise_index_is(views_of(exercises@), name@, i as int);
            }
            return Ok(exercises[i].clone());
        }
        proof {
            assert(views_of(exercises@)[i as int] == exercises[i as int]@);
        }
        i += 1;
    }
    proof {
        lemma_exercise_index_none(views_of(exercises@), name@);
    }
    Err(ResultError::OtherError("Exercise not found".to_owned()))
}

/// The registry document text after removing every exercise with the
/// given name from the current profile; a name that matches none leaves
/// the profile as it was and is not an error.
pub open spec fn delete_exercise_spec(ro: ReadOutcomeView, po: ReadOutcomeView, nm: Seq<char>) -> Result<
    Seq<char>,
    ResultErrorView,
> {
    match read_profiles_spec(ro) {
        Err(e) => Err(e),
        Ok(uv) => match get_current_user_spec(ro, po) {
            Err(e) => Err(e),
            Ok(pv) => {
                let pv2 = UserProfileView {
                    created_exercises: exercises_without_name(pv.created_exercises, nm),
                    ..pv
                };
                Ok(
                    render_contents(
                        ContentsView::Users(UsersView { users: spec_upsert(uv.users, pv2) }),
                    ),
                )
            },
        },
    }
}

/// Removes every exercise with the given name from the current profile
/// and returns the registry document text to write back.
pub fn delete_exercise(reg: &ReadOutcome, ptr: &ReadOutcome, name: &str) -> (r: Result<
    String,
    ResultError,
>)
    ensures
        res_view(r) == delete_exercise_spec(reg@, ptr@, name@),
{
    let mut users = match read_profiles(reg) {
        Ok(users) => users,
        Err(e) => {
            return Err(e);
        },
    };
    let mut user = match get_current_user(reg, ptr) {
        Ok(user) => user,
        Err(e) => {
            return Err(e);
        },
    };
    let owned = name.to_owned();
    user.remove_exercise(&owned);
    users.upsert(user);
    Ok(encode_contents(&FileContents::Users(users)))
}

} // verus!
