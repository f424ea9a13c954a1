//! User profiles and the registry that holds them.
//!
//! A profile is keyed by its name; the registry is an ordered list of
//! profiles in which names are meant to be unique.  Lookup is by exact
//! name equality and always finds the first (and, when names are unique,
//! the only) profile with the given name.  `upsert` appends a profile
//! whose name is new and replaces, in place, the profile whose name it
//! reuses, so insertion order is preserved across rewrites.

use vstd::prelude::*;

use crate::codec::encode_contents;
use crate::errors::ResultError;
use crate::errors::ResultErrorView;
use crate::exercise::Exercise;
use crate::exercise::ExerciseView;
use crate::json::render_contents;
use crate::res_view;
use crate::utils::read_file;
use crate::utils::read_file_spec;
use crate::utils::ContentsView;
use crate::utils::FileContents;
use crate::utils::ReadOutcome;
use crate::utils::ReadOutcomeView;
use crate::views_of;
use crate::workout_session::WorkoutSession;
use crate::workout_session::WorkoutSessionView;

verus! {

#[derive(Debug, PartialEq)]
pub struct UserProfile {
    pub name: String,
    pub chosen_workout_session: Option<String>,
    pub workouts: Vec<WorkoutSession>,
    pub created_exercises: Vec<Exercise>,
}

/// Mathematical image of a `UserProfile`.
pub struct UserProfileView {
    pub name: Seq<char>,
    pub chosen_workout_session: Option<Seq<char>>,
    pub workouts: Seq<WorkoutSessionView>,
    pub created_exercises: Seq<ExerciseView>,
}

impl View for UserProfile {
    type V = UserProfileView;

    open spec fn view(&self) -> UserProfileView {
        UserProfileView {
            name: self.name@,
            chosen_workout_session: match self.chosen_workout_session {
                Some(s) => Some(s@),
                None => None,
            },
            workouts: views_of(self.workouts@),
            created_exercises: views_of(self.created_exercises@),
        }
    }
}

impl UserProfile {
    /// A fresh profile: no sessions, no exercises, no chosen session.
    pub fn new(name: String) -> (p: UserProfile)
        ensures
            p@ == (UserProfileView {
                name: name@,
                chosen_workout_session: None,
                workouts: Seq::<WorkoutSessionView>::empty(),
                created_exercises: Seq::<ExerciseView>::empty(),
            }),
    {
        let p = UserProfile {
            name,
            chosen_workout_session: None,
            workouts: Vec::new(),
            created_exercises: Vec::new(),
        };
        proof {
            assert(views_of(p.workouts@) =~= Seq::<WorkoutSessionView>::empty());
            assert(views_of(p.created_exercises@) =~= Seq::<ExerciseView>::empty());
        }
        p
    }

    pub fn get_chosen_workout_session(&self) -> (r: Option<&String>)
        ensures
            match r {
                Some(s) => self@.chosen_workout_session == Some(s@),
                None => self@.chosen_workout_session is None,
            },
    {
        self.chosen_workout_session.as_ref()
    }

    pub fn set_chosen_workout_session(&mut self, workout_session: String)
        ensures
            final(self)@ == (UserProfileView {
                chosen_workout_session: Some(workout_session@),
                ..old(self)@
            }),
    {
        self.chosen_workout_session = Some(workout_session);
    }

    pub fn add_workout(&mut self, workout: WorkoutSession)
        ensures
            final(self)@ == (UserProfileView {
                workouts: old(self)@.workouts.push(workout@),
                ..old(self)@
            }),
    {
        let ghost wv = workout@;
        self.workouts.push(workout);
        proof {
            assert(views_of(self.workouts@) =~= views_of(old(self).workouts@).push(wv));
        }
    }

    /// Removes every session that is structurally equal to `workout`.
    pub fn remove_workout(&mut self, workout: WorkoutSession)
        ensures
            final(self)@ == (UserProfileView {
                workouts: crate::workout_session::sessions_without(old(self)@.workouts, workout@),
                ..old(self)@
            }),
    {
        let ghost orig = views_of(self.workouts@);
        let mut kept: Vec<WorkoutSession> = Vec::new();
        let mut i: usize = 0;
        proof {
            reveal_with_fuel(Seq::filter, 1);
            assert(orig.take(0int) =~= Seq::<WorkoutSessionView>::empty());
            assert(views_of(kept@) =~= orig.take(0int).filter(|w: WorkoutSessionView| w != workout@));
        }
        while i < self.workouts.len()
            invariant
                i <= self.workouts@.len(),
                orig == views_of(self.workouts@),
                views_of(kept@) == orig.take(i as int).filter(
                    |w: WorkoutSessionView| w != workout@,
                ),
            decreases self.workouts@.len() - i,
        {
            let keep = !(self.workouts[i] == workout);
            proof {
                assert(orig.take(i + 1int).drop_last() =~= orig.take(i as int));
                assert(orig.take(i + 1int).last() == orig[i as int]);
                reveal_with_fuel(Seq::filter, 2);
                assert(orig.take(i + 1int).filter(|w: WorkoutSessionView| w != workout@)
                    == if orig[i as int] != workout@ {
                        orig.take(i as int).filter(|w: WorkoutSessionView| w != workout@).push(
                            orig[i as int],
                        )
                    } else {
                        orig.take(i as int).filter(|w: WorkoutSessionView| w != workout@)
                    });
            }
            if keep {
                let ghost kept_before = views_of(kept@);
                kept.push(self.workouts[i].clone());
                proof {
                    assert(self.workouts[i as int]@ == orig[i as int]);
                    assert(views_of(kept@) =~= kept_before.push(orig[i as int]));
                }
            }
            i += 1;
        }
        proof {
            assert(orig.take(self.workouts@.len() as int) =~= orig);
        }
        self.workouts = kept;
    }

    pub fn get_workouts(&self) -> (r: &Vec<WorkoutSession>)
        ensures
            views_of(r@) == self@.workouts,
    {
        &self.workouts
    }

    pub fn get_name(&self) -> (r: &String)
        ensures
            r@ == self@.name,
    {
        &self.name
    }

    pub fn add_exercise(&mut self, exercise: Exercise)
        ensures
            final(self)@ == (UserProfileView {
                created_exercises: old(self)@.created_exercises.push(exercise@),
                ..old(self)@
            }),
    {
        let ghost ev = exercise@;
        self.created_exercises.push(exercise);
        proof {
            assert(views_of(self.created_exercises@) =~= views_of(
                old(self).created_exercises@,
            ).push(ev));
        }
    }

    pub fn get_exercises(&self) -> (r: &Vec<Exercise>)
        ensures
            views_of(r@) == self@.created_exercises,
    {
        &self.created_exercises
    }

    /// Removes every exercise whose name equals `name`.
    pub fn remove_exercise(&mut self, name: &String)
        ensures
            final(self)@ == (UserProfileView {
                created_exercises: crate::exercise::exercises_without_name(
                    old(self)@.created_exercises,
                    name@,
                ),
                ..old(self)@
            }),
    {
        let ghost orig = views_of(self.created_exercises@);
        let mut kept: Vec<Exercise> = Vec::new();
        let mut i: usize = 0;
        proof {
            reveal_with_fuel(Seq::filter, 1);
            assert(orig.take(0int) =~= Seq::<ExerciseView>::empty());
            assert(views_of(kept@) =~= orig.take(0int).filter(|e: ExerciseView| e.name != name@));
        }
        while i < self.created_exercises.len()
            invariant
                i <= self.created_exercises@.len(),
                orig == views_of(self.created_exercises@),
                views_of(kept@) == orig.take(i as int).filter(|e: ExerciseView| e.name != name@),
            decreases self.created_exercises@.len() - i,
        {
            let keep = !(*self.created_exercises[i].get_name() == *name);
            proof {
                assert(orig.take(i + 1int).drop_last() =~= orig.take(i as int));
                assert(orig.take(i + 1int).last() == orig[i as int]);
                reveal_with_fuel(Seq::filter, 2);
                assert(orig.take(i + 1int).filter(|e: ExerciseView| e.name != name@)
                    == if orig[i as int].name != name@ {
                        orig.take(i as int).filter(|e: ExerciseView| e.name != name@).push(
                            orig[i as int],
                        )
                    } else {
                        orig.take(i as int).filter(|e: ExerciseView| e.name != name@)
                    });
            }
            if keep {
                let ghost kept_before = views_of(kept@);
                kept.push(self.created_exercises[i].clone());
                proof {
                    assert(self.created_exercises[i as int]@ == orig[i as int]);
                    assert(views_of(kept@) =~= kept_before.push(orig[i as int]));
                }
            }
            i += 1;
        }
        proof {
            assert(orig.take(self.created_exercises@.len() as int) =~= orig);
        }
        self.created_exercises = kept;
    }
}

impl Clone for UserProfile {
    fn clone(&self) -> (r: Self)
        ensures
            r@ == self@,
    {
        let workouts = self.workouts.clone();
        let created_exercises = self.created_exercises.clone();
        proof {
            assert forall|i: int| 0 <= i < self.workouts@.len() implies views_of(workouts@)[i]
                == views_of(self.workouts@)[i] by {
                assert(cloned::<WorkoutSession>(self.workouts[i], workouts[i]));
            }
            assert(views_of(workouts@) =~= views_of(self.workouts@));
            assert forall|i: int| 0 <= i < self.created_exercises@.len() implies views_of(
                created_exercises@,
            )[i] == views_of(self.created_exercises@)[i] by {
                assert(cloned::<Exercise>(self.created_exercises[i], created_exercises[i]));
            }
            assert(views_of(created_exercises@) =~= views_of(self.created_exercises@));
        }
        UserProfile {
            name: self.name.clone(),
            chosen_workout_session: match &self.chosen_workout_session {
                Some(s) => Some(s.clone()),
                None => None,
            },
            workouts,
            created_exercises,
        }
    }
}

/// The position of the first profile named `nm`, or -1 when there is none.
pub open spec fn first_index_of(users: Seq<UserProfileView>, nm: Seq<char>) -> int
    decreases users.len(),
{
    if users.len() == 0 {
        -1
    } else if users[0].name == nm {
        0
    } else if first_index_of(users.skip(1), nm) == -1 {
        -1
    } else {
        1 + first_index_of(users.skip(1), nm)
    }
}

/// Whether some profile in `users` is named `nm`.
pub open spec fn contains_name(users: Seq<UserProfileView>, nm: Seq<char>) -> bool {
    first_index_of(users, nm) != -1
}

/// Insert-or-replace: a new name is appended, a present name has its
/// profile replaced in place.
pub open spec fn spec_upsert(
    users: Seq<UserProfileView>,
    p: UserProfileView,
) -> Seq<UserProfileView> {
    let i = first_index_of(users, p.name);
    if i == -1 {
        users.push(p)
    } else {
        users.update(i, p)
    }
}

/// Removal of the first profile named `nm`; without one, the registry is
/// unchanged.
pub open spec fn spec_delete(users: Seq<UserProfileView>, nm: Seq<char>) -> Seq<UserProfileView> {
    let i = first_index_of(users, nm);
    if i == -1 {
        users
    } else {
        users.remove(i)
    }
}

/// The registry's invariant: no two profiles share a name.
pub open spec fn unique_names(users: Seq<UserProfileView>) -> bool {
    forall|i: int, j: int|
        0 <= i < j < users.len() ==> users[i].name != users[j].name
}

/// What `first_index_of` finds: -1 means no profile has the name; any
/// other value is the position of the first profile that does.
pub proof fn lemma_first_index_spec(users: Seq<UserProfileView>, nm: Seq<char>)
    ensures
        first_index_of(users, nm) == -1 ==> forall|j: int|
            0 <= j < users.len() ==> users[j].name != nm,
        first_index_of(users, nm) != -1 ==> ({
            let i = first_index_of(users, nm);
            &&& 0 <= i < users.len()
            &&& users[i].name == nm
            &&& forall|j: int| 0 <= j < i ==> users[j].name != nm
        }),
    decreases users.len(),
{
    if users.len() > 0 && users[0].name != nm {
        lemma_first_index_spec(users.skip(1), nm);
        let rest = first_index_of(users.skip(1), nm);
        if rest == -1 {
            assert forall|j: int| 0 <= j < users.len() implies users[j].name != nm by {
                if j > 0 {
                    assert(users.skip(1)[j - 1] == users[j]);
                }
            }
        } else {
            assert forall|j: int| 0 <= j < rest + 1 implies users[j].name != nm by {
                if j > 0 {
                    assert(users.skip(1)[j - 1] == users[j]);
                }
            }
        }
    }
}

/// When position `i` holds the name and nothing before it does, `i` is
/// exactly what `first_index_of` returns.
pub proof fn lemma_first_index_is(users: Seq<UserProfileView>, nm: Seq<char>, i: int)
    requires
        0 <= i < users.len(),
        users[i].name == nm,
        forall|j: int| 0 <= j < i ==> users[j].name != nm,
    ensures
        first_index_of(users, nm) == i,
    decreases i,
{
    if i > 0 {
        assert(users.skip(1)[i - 1] == users[i]);
        assert forall|j: int| 0 <= j < i - 1 implies users.skip(1)[j].name != nm by {
            assert(users.skip(1)[j] == users[j + 1]);
        }
        lemma_first_index_is(users.skip(1), nm, i - 1);
    }
}

/// When no profile has the name, `first_index_of` returns -1.
pub proof fn lemma_first_index_none(users: Seq<UserProfileView>, nm: Seq<char>)
    requires
        forall|j: int| 0 <= j < users.len() ==> users[j].name != nm,
    ensures
        first_index_of(users, nm) == -1,
{
    lemma_first_index_spec(users, nm);
}

#[derive(Debug, PartialEq)]
pub struct Users {
    pub users: Vec<UserProfile>,
}

/// Mathematical image of the registry.
pub struct UsersView {
    pub users: Seq<UserProfileView>,
}

impl View for Users {
    type V = UsersView;

    open spec fn view(&self) -> UsersView {
        UsersView { users: views_of(self.users@) }
    }
}

impl Clone for Users {
    fn clone(&self) -> (r: Self)
        ensures
            r@ == self@,
    {
        let users = self.users.clone();
        proof {
            assert forall|i: int| 0 <= i < self.users@.len() implies views_of(users@)[i]
                == views_of(self.users@)[i] by {
                assert(cloned::<UserProfile>(self.users[i], users[i]));
            }
            assert(views_of(users@) =~= views_of(self.users@));
        }
        Users { users }
    }
}

impl Users {
    pub fn new() -> (r: Users)
        ensures
            r@.users == Seq::<UserProfileView>::empty(),
    {
        let r = Users { users: Vec::new() };
        proof {
            assert(views_of(r.users@) =~= Seq::<UserProfileView>::empty());
        }
        r
    }

    pub fn add_user(&mut self, user: UserProfile)
        ensures
            final(self)@.users == old(self)@.users.push(user@),
    {
        let ghost uv = user@;
        self.users.push(user);
        proof {
            assert(views_of(self.users@) =~= views_of(old(self).users@).push(uv));
        }
    }

    pub fn list(&self) -> (r: &Vec<UserProfile>)
        ensures
            views_of(r@) == self@.users,
    {
        &self.users
    }

    pub fn user_exists(&self, name: &String) -> (r: bool)
        ensures
            r == contains_name(self@.users, name@),
    {
        let mut i: usize = 0;
        while i < self.users.len()
            invariant
                i <= self.users@.len(),
                forall|j: int| 0 <= j < i ==> views_of(self.users@)[j].name != name@,
            decreases self.users@.len() - i,
        {
            if *self.users[i].get_name() == *name {
                proof {
                    assert(views_of(self.users@)[i as int] == self.users[i as int]@);
                    lemma_first_index_is(views_of(self.users@), name@, i as int);
                }
                return true;
            }
            proof {
                assert(views_of(self.users@)[i as int] == self.users[i as int]@);
            }
            i += 1;
        }
        proof {
            lemma_first_index_none(views_of(self.users@), name@);
        }
        false
    }

    /// Removes the profile named `name`; an absent name is an error and
    /// leaves the registry unchanged.
    pub fn delete_user(&mut self, name: String) -> (r: Result<(), ResultError>)
        ensures
            final(self)@.users == spec_delete(old(self)@.users, name@),
            r is Ok <==> contains_name(old(self)@.users, name@),
            !contains_name(old(self)@.users, name@) ==> final(self)@ == old(self)@ && (
            r matches Err(e) && e@ == ResultErrorView::OtherError("User does not exist"@)),
    {
        let ghost orig = views_of(self.users@);
        let mut i: usize = 0;
        while i < self.users.len()
            invariant
                i <= self.users@.len(),
                orig == views_of(self.users@),
                orig == old(self)@.users,
                forall|j: int| 0 <= j < i ==> orig[j].name != name@,
            decreases self.users@.len() - i,
        {
            if *self.users[i].get_name() == name {
                proof {
                    assert(orig[i as int] == self.users[i as int]@);
                    lemma_first_index_is(orig, name@, i as int);
                }
                self.users.remove(i);
                proof {
                    assert(views_of(self.users@) =~= orig.remove(i as int));
                }
                return Ok(());
            }
            proof {
                assert(orig[i as int] == self.users[i as int]@);
            }
            i += 1;
        }
        proof {
            lemma_first_index_none(orig, name@);
        }
        Err(ResultError::OtherError("User does not exist".to_owned()))
    }

    pub fn get_user(&self, name: &String) -> (r: Option<&UserProfile>)
        ensures
            match r {
                Some(u) => {
                    &&& contains_name(self@.users, name@)
                    &&& u@ == self@.users[first_index_of(self@.users, name@)]
                },
                None => !contains_name(self@.users, name@),
            },
    {
        let mut i: usize = 0;
        while i < self.users.len()
            invariant
                i <= self.users@.len(),
                forall|j: int| 0 <= j < i ==> views_of(self.users@)[j].name != name@,
            decreases self.users@.len() - i,
        {
            if *self.users[i].get_name() == *name {
                proof {
                    assert(views_of(self.users@)[i as int] == self.users[i as int]@);
                    lemma_first_index_is(views_of(self.users@), name@, i as int);
                }
                return Some(&self.users[i]);
            }
            proof {
                assert(views_of(self.users@)[i as int] == self.users[i as int]@);
            }
            i += 1;
        }
        proof {
            lemma_first_index_none(views_of(self.users@), name@);
        }
        None
    }

    /// Insert-or-replace, the save path of every mutation: appends a
    /// profile whose name is new, replaces in place the profile whose
    /// name it reuses.
    pub fn upsert(&mut self, user: UserProfile)
        ensures
            final(self)@.users == spec_upsert(old(self)@.users, user@),
    {
        let ghost orig = views_of(self.users@);
        let ghost uv = user@;
        let mut i: usize = 0;
        while i < self.users.len()
            invariant
                i <= self.users@.len(),
                orig == views_of(self.users@),
                orig == old(self)@.users,
                uv == user@,
                forall|j: int| 0 <= j < i ==> orig[j].name != uv.name,
            decreases self.users@.len() - i,
        {
            if *self.users[i].get_name() == *user.get_name() {
                proof {
                    assert(orig[i as int] == self.users[i as int]@);
                    lemma_first_index_is(orig, uv.name, i as int);
                }
                self.users[i] = user;
                proof {
                    assert(views_of(self.users@) =~= orig.update(i as int, uv));
                }
                return ;
            }
            proof {
                assert(orig[i as int] == self.users[i as int]@);
            }
            i += 1;
        }
        proof {
            lemma_first_index_none(orig, uv.name);
        }
        self.users.push(user);
        proof {
            assert(views_of(self.users@) =~= orig.push(uv));
        }
    }
}

/// Upsert is idempotent: inserting the same profile twice leaves the
/// registry exactly as inserting it once does, so no duplicate entry can
/// arise from repeated saves.
pub proof fn lemma_upsert_idempotent(users: Seq<UserProfileView>, p: UserProfileView)
    ensures
        spec_upsert(spec_upsert(users, p), p) == spec_upsert(users, p),
{
    lemma_first_index_spec(users, p.name);
    let i = first_index_of(users, p.name);
    if i == -1 {
        let pushed = users.push(p);
        lemma_first_index_is(pushed, p.name, users.len() as int);
        assert(pushed.update(users.len() as int, p) =~= pushed);
    } else {
        let updated = users.update(i, p);
        lemma_first_index_is(updated, p.name, i);
        assert(updated.update(i, p) =~= updated);
    }
}

/// Upsert keeps names unique: it never appends a name that is already
/// present, and a replacement reuses the name it replaces.
pub proof fn lemma_upsert_preserves_unique(users: Seq<UserProfileView>, p: UserProfileView)
    requires
        unique_names(users),
    ensures
        unique_names(spec_upsert(users, p)),
{
    lemma_first_index_spec(users, p.name);
    let i = first_index_of(users, p.name);
    if i == -1 {
        let pushed = users.push(p);
        assert forall|a: int, b: int| 0 <= a < b < pushed.len() implies pushed[a].name
            != pushed[b].name by {
            if b == users.len() {
                assert(pushed[a] == users[a]);
            }
        }
    } else {
        let updated = users.update(i, p);
        assert forall|a: int, b: int| 0 <= a < b < updated.len() implies updated[a].name
            != updated[b].name by {
            assert(users[a].name != users[b].name);
        }
    }
}

/// What loading the registry from a read outcome yields: the registry
/// document's profiles, an error for a snapshot document in its place,
/// and the store's own errors unchanged.
pub open spec fn read_profiles_spec(o: ReadOutcomeView) -> Result<UsersView, ResultErrorView> {
    match read_file_spec(o) {
        Ok(ContentsView::Users(u)) => Ok(u),
        Ok(ContentsView::UserProfile(p)) => Err(
            ResultErrorView::OtherError("Unable to read user profiles"@),
        ),
        Err(e) => Err(e),
    }
}

/// Loads the registry: a missing file is an empty registry, a registry
/// document is its profiles, anything else is an error.
pub fn read_profiles(outcome: &ReadOutcome) -> (r: Result<Users, ResultError>)
    ensures
        res_view(r) == read_profiles_spec(outcome@),
{
    match read_file(outcome) {
        Ok(FileContents::Users(u)) => Ok(u),
        Ok(FileContents::UserProfile(_)) => Err(
            ResultError::OtherError("Unable to read user profiles".to_owned()),
        ),
        Err(e) => Err(e),
    }
}

/// The document text that saving a profile produces: the loaded registry
/// with the profile upserted, rendered whole.
pub open spec fn save_user_profile_spec(o: ReadOutcomeView, p: UserProfileView) -> Result<
    Seq<char>,
    ResultErrorView,
> {
    match read_profiles_spec(o) {
        Ok(uv) => Ok(
            render_contents(ContentsView::Users(UsersView { users: spec_upsert(uv.users, p) })),
        ),
        Err(e) => Err(e),
    }
}

/// Saves one profile: loads the registry from the outcome, upserts the
/// profile, and returns the whole document text to write back.
pub fn save_user_profile(outcome: &ReadOutcome, user_profile: &UserProfile) -> (r: Result<
    String,
    ResultError,
>)
    ensures
        res_view(r) == save_user_profile_spec(outcome@, user_profile@),
{
    let mut users = match read_profiles(outcome) {
        Ok(users) => users,
        Err(e) => {
            return Err(e);
        },
    };
    users.upsert(user_profile.clone());
    Ok(encode_contents(&FileContents::Users(users)))
}

/// The document text that creating a profile produces: saving a fresh
/// profile with that name.
pub open spec fn create_profile_spec(o: ReadOutcomeView, nm: Seq<char>) -> Result<
    Seq<char>,
    ResultErrorView,
> {
    save_user_profile_spec(
        o,
        UserProfileView {
            name: nm,
            chosen_workout_session: None,
            workouts: Seq::<WorkoutSessionView>::empty(),
            created_exercises: Seq::<ExerciseView>::empty(),
        },
    )
}

/// Creates a profile with the given name and no sessions, exercises or
/// chosen session, and returns the registry document text to write back.
/// A profile that already bears the name is replaced by the fresh one.
pub fn create_profile(outcome: &ReadOutcome, name: String) -> (r: Result<String, ResultError>)
    ensures
        res_view(r) == create_profile_spec(outcome@, name@),
{
    let user_profile = UserProfile::new(name);
    save_user_profile(outcome, &user_profile)
}

/// The document text that deleting a profile produces, or the error: an
/// absent name is refused and the store's errors pass through.
pub open spec fn delete_profile_spec(o: ReadOutcomeView, nm: Seq<char>) -> Result<
    Seq<char>,
    ResultErrorView,
> {
    match read_profiles_spec(o) {
        Ok(uv) => if contains_name(uv.users, nm) {
            Ok(
                render_contents(
                    ContentsView::Users(UsersView { users: spec_delete(uv.users, nm) }),
                ),
            )
        } else {
            Err(ResultErrorView::OtherError("User does not exist"@))
        },
        Err(e) => Err(e),
    }
}

/// Deletes the profile with the given name and returns the registry
/// document text to write back; an absent name is an error.
pub fn delete_profile(outcome: &ReadOutcome, name: String) -> (r: Result<String, ResultError>)
    ensures
        res_view(r) == delete_profile_spec(outcome@, name@),
{
    let mut users = match read_profiles(outcome) {
        Ok(users) => users,
        Err(e) => {
            return Err(e);
        },
    };
    match users.delete_user(name) {
        Ok(()) => Ok(encode_contents(&FileContents::Users(users))),
        Err(e) => Err(e),
    }
}

/// The current profile, re-resolved by name: the pointer document only
/// contributes the name, which is looked up in the freshly loaded
/// registry, so stale snapshot fields are never returned.  A pointer
/// name that is not in the registry is an error, as is a pointer file
/// that does not hold a snapshot document.
pub open spec fn get_current_user_spec(ro: ReadOutcomeView, po: ReadOutcomeView) -> Result<
    UserProfileView,
    ResultErrorView,
> {
    match read_profiles_spec(ro) {
        Err(e) => Err(e),
        Ok(uv) => match read_file_spec(po) {
            Err(e) => Err(e),
            Ok(ContentsView::UserProfile(pv)) => if contains_name(uv.users, pv.name) {
                Ok(uv.users[first_index_of(uv.users, pv.name)])
            } else {
                Err(ResultErrorView::OtherError("Unable to find current user"@))
            },
            Ok(ContentsView::Users(u)) => Err(
                ResultErrorView::OtherError("Unable to read current user"@),
            ),
        },
    }
}

/// Resolves the current profile: reads the pointer snapshot for its
/// name alone and returns the registry's live profile of that name.
pub fn get_current_user(reg: &ReadOutcome, ptr: &ReadOutcome) -> (r: Result<
    UserProfile,
    ResultError,
>)
    ensures
        res_view(r) == get_current_user_spec(reg@, ptr@),
{
    let users = match read_profiles(reg) {
        Ok(users) => users,
        Err(e) => {
            return Err(e);
        },
    };
    match read_file(ptr) {
        Err(e) => Err(e),
        Ok(FileContents::UserProfile(snapshot)) => match users.get_user(snapshot.get_name()) {
            Some(user) => Ok(user.clone()),
            None => Err(ResultError::OtherError("Unable to find current user".to_owned())),
        },
        Ok(FileContents::Users(_)) => Err(
            ResultError::OtherError("Unable to read current user".to_owned()),
        ),
    }
}

/// The name of the current profile, or the error of resolving it.
pub open spec fn read_current_user_spec(ro: ReadOutcomeView, po: ReadOutcomeView) -> Result<
    Seq<char>,
    ResultErrorView,
> {
    match get_current_user_spec(ro, po) {
        Ok(pv) => Ok(pv.name),
        Err(e) => Err(e),
    }
}

/// The name of the current profile.
pub fn read_current_user(reg: &ReadOutcome, ptr: &ReadOutcome) -> (r: Result<String, ResultError>)
    ensures
        res_view(r) == read_current_user_spec(reg@, ptr@),
{
    match get_current_user(reg, ptr) {
        Ok(user_profile) => {
            let name = user_profile.get_name().clone();
            Ok(name)
        },
        Err(e) => Err(e),
    }
}

/// The pointer document text that choosing a profile produces: a
/// snapshot of the registry's profile of that name; an absent name is
/// refused.
pub open spec fn choose_profile_spec(o: ReadOutcomeView, nm: Seq<char>) -> Result<
    Seq<char>,
    ResultErrorView,
> {
    match read_profiles_spec(o) {
        Err(e) => Err(e),
        Ok(uv) => if contains_name(uv.users, nm) {
            Ok(
                render_contents(
                    ContentsView::UserProfile(uv.users[first_index_of(uv.users, nm)]),
                ),
            )
        } else {
            Err(ResultErrorView::OtherError("User does not exist"@))
        },
    }
}

/// Chooses the current profile: the name must be in the registry, and
/// the returned text is the pointer document to write back.
pub fn choose_profile(outcome: &ReadOutcome, name: String) -> (r: Result<String, ResultError>)
    ensures
        res_view(r) == choose_profile_spec(outcome@, name@),
{
    let users = match read_profiles(outcome) {
        Ok(users) => users,
        Err(e) => {
            return Err(e);
        },
    };
    match users.get_user(&name) {
        Some(user) => Ok(encode_contents(&FileContents::UserProfile(user.clone()))),
        None => Err(ResultError::OtherError("User does not exist".to_owned())),
    }
}

/// After a successful delete of `name` from a registry with unique
/// names, no profile with that name remains: `get` finds none and
/// `exists` is false.
pub proof fn lemma_delete_then_get(users: Seq<UserProfileView>, nm: Seq<char>)
    requires
        unique_names(users),
        contains_name(users, nm),
    ensures
        !contains_name(spec_delete(users, nm), nm),
{
    lemma_first_index_spec(users, nm);
    let i = first_index_of(users, nm);
    let res = users.remove(i);
    assert forall|j: int| 0 <= j < res.len() implies res[j].name != nm by {
        if j < i {
            assert(res[j] == users[j]);
        } else {
            assert(res[j] == users[j + 1]);
            assert(users[i].name != users[j + 1].name);
        }
    }
    lemma_first_index_none(res, nm);
}

} // verus!
