//! A workout session: a named collection of recorded sets.  The name
//! doubles as the key under which a profile's chosen session is looked up.

use vstd::prelude::*;
use vstd::std_specs::cmp::PartialEqSpec;

use crate::codec::encode_contents;
use crate::errors::ResultError;
use crate::errors::ResultErrorView;
use crate::json::render_contents;
use crate::res_view;
use crate::user_profile::get_current_user;
use crate::user_profile::get_current_user_spec;
use crate::user_profile::read_profiles;
use crate::user_profile::read_profiles_spec;
use crate::user_profile::spec_upsert;
use crate::user_profile::UserProfileView;
use crate::user_profile::UsersView;
use crate::utils::ContentsView;
use crate::utils::FileContents;
use crate::utils::ReadOutcome;
use crate::utils::ReadOutcomeView;
use crate::views_of;
use crate::workout_set::WorkoutSet;
use crate::workout_set::WorkoutSetView;

verus! {

#[derive(Debug)]
pub struct WorkoutSession {
    pub sets: Vec<WorkoutSet>,
    pub name: String,
}

/// Mathematical image of a `WorkoutSession`.
pub struct WorkoutSessionView {
    pub sets: Seq<WorkoutSetView>,
    pub name: Seq<char>,
}

impl View for WorkoutSession {
    type V = WorkoutSessionView;

    open spec fn view(&self) -> WorkoutSessionView {
        WorkoutSessionView { sets: views_of(self.sets@), name: self.name@ }
    }
}

impl WorkoutSession {
    pub fn new(sets: Vec<WorkoutSet>, name: String) -> (s: WorkoutSession)
        ensures
            s@ == (WorkoutSessionView { sets: views_of(sets@), name: name@ }),
    {
        WorkoutSession { sets, name }
    }

    pub fn get_name(&self) -> (r: &String)
        ensures
            r@ == self@.name,
    {
        &self.name
    }

    pub fn get_sets(&self) -> (r: &Vec<WorkoutSet>)
        ensures
            views_of(r@) == self@.sets,
    {
        &self.sets
    }

    pub fn add_set(&mut self, set: WorkoutSet)
        ensures
            final(self)@ == (WorkoutSessionView {
                sets: old(self)@.sets.push(set@),
                ..old(self)@
            }),
    {
        let ghost sv = set@;
        self.sets.push(set);
        proof {
            assert(views_of(self.sets@) =~= views_of(old(self).sets@).push(sv));
        }
    }
}

impl Clone for WorkoutSession {
    fn clone(&self) -> (r: Self)
        ensures
            r@ == self@,
    {
        let sets = self.sets.clone();
        proof {
            assert forall|i: int| 0 <= i < self.sets@.len() implies views_of(sets@)[i] == views_of(
                self.sets@,
            )[i] by {
                assert(cloned::<WorkoutSet>(self.sets[i], sets[i]));
            }
            assert(views_of(sets@) =~= views_of(self.sets@));
        }
        WorkoutSession { sets, name: self.name.clone() }
    }
}

impl PartialEq for WorkoutSession {
    fn eq(&self, other: &Self) -> (r: bool) {
        let sets_equal = self.sets == other.sets;
        proof {
            if sets_equal {
                assert forall|i: int| 0 <= i < self.sets@.len() implies views_of(self.sets@)[i]
                    == views_of(other.sets@)[i] by {
                    assert(self.sets[i].eq_spec(&other.sets[i]));
                }
                assert(views_of(self.sets@) =~= views_of(other.sets@));
            } else {
                if views_of(self.sets@) == views_of(other.sets@) {
                    assert(views_of(self.sets@).len() == self.sets@.len());
                    assert(views_of(other.sets@).len() == other.sets@.len());
                    assert(self.sets@.len() == other.sets@.len());
                    assert forall|i: int| 0 <= i < self.sets@.len() implies self.sets[i].eq_spec(
                        &other.sets[i],
                    ) by {
                        assert(views_of(self.sets@)[i] == views_of(other.sets@)[i]);
                    }
                    assert(self.sets.eq_spec(&other.sets));
                    assert(false);
                }
            }
        }
        sets_equal && self.name == other.name
    }
}

impl vstd::std_specs::cmp::PartialEqSpecImpl for WorkoutSession {
    open spec fn obeys_eq_spec() -> bool {
        true
    }

    open spec fn eq_spec(&self, other: &Self) -> bool {
        self@ == other@
    }
}

/// The sessions of `ws` that are not structurally equal to `s`.
pub open spec fn sessions_without(ws: Seq<WorkoutSessionView>, s: WorkoutSessionView) -> Seq<
    WorkoutSessionView,
> {
    ws.filter(|w: WorkoutSessionView| w != s)
}

/// The position of the first session named `nm`, or -1 when there is
/// none.
pub open spec fn session_index_of(ws: Seq<WorkoutSessionView>, nm: Seq<char>) -> int
    decreases ws.len(),
{
    if ws.len() == 0 {
        -1
    } else if ws[0].name == nm {
        0
    } else if session_index_of(ws.skip(1), nm) == -1 {
        -1
    } else {
        1 + session_index_of(ws.skip(1), nm)
    }
}

/// When position `i` holds the name and nothing before it does, `i` is
/// exactly what `session_index_of` returns.
pub proof fn lemma_session_index_is(ws: Seq<WorkoutSessionView>, nm: Seq<char>, i: int)
    requires
        0 <= i < ws.len(),
        ws[i].name == nm,
        forall|j: int| 0 <= j < i ==> ws[j].name != nm,
    ensures
        session_index_of(ws, nm) == i,
    decreases i,
{
    if i > 0 {
        assert(ws.skip(1)[i - 1] == ws[i]);
        assert forall|j: int| 0 <= j < i - 1 implies ws.skip(1)[j].name != nm by {
            assert(ws.skip(1)[j] == ws[j + 1]);
        }
        lemma_session_index_is(ws.skip(1), nm, i - 1);
    }
}

/// When no session has the name, `session_index_of` returns -1.
pub proof fn lemma_session_index_none(ws: Seq<WorkoutSessionView>, nm: Seq<char>)
    requires
        forall|j: int| 0 <= j < ws.len() ==> ws[j].name != nm,
    ensures
        session_index_of(ws, nm) == -1,
    decreases ws.len(),
{
    if ws.len() > 0 {
        assert forall|j: int| 0 <= j < ws.skip(1).len() implies ws.skip(1)[j].name != nm by {
            assert(ws.skip(1)[j] == ws[j + 1]);
        }
        lemma_session_index_none(ws.skip(1), nm);
    }
}

/// The first session with the given name, if any.
fn find_session(workouts: &Vec<WorkoutSession>, name: &String) -> (r: Option<usize>)
    ensures
        match r {
            Some(i) => session_index_of(views_of(workouts@), name@) == i && i < workouts@.len(),
            None => session_index_of(views_of(workouts@), name@) == -1,
        },
{
    let mut i: usize = 0;
    while i < workouts.len()
        invariant
            i <= workouts@.len(),
            forall|j: int| 0 <= j < i ==> views_of(workouts@)[j].name != name@,
        decreases workouts@.len() - i,
    {
        if *workouts[i].get_name() == *name {
            proof {
                assert(views_of(workouts@)[i as int] == workouts[i as int]@);
                lemma_session_index_is(views_of(workouts@), name@, i as int);
            }
            return Some(i);
        }
        proof {
            assert(views_of(workouts@)[i as int] == workouts[i as int]@);
        }
        i += 1;
    }
    proof {
        lemma_session_index_none(views_of(workouts@), name@);
    }
    None
}

/// The current profile's chosen session, resolved by name against its
/// live session list: an unset chosen session or a name that matches no
/// session is an error.
pub open spec fn get_current_session_spec(ro: ReadOutcomeView, po: ReadOutcomeView) -> Result<
    WorkoutSessionView,
    ResultErrorView,
> {
    match get_current_user_spec(ro, po) {
        Err(e) => Err(e),
        Ok(pv) => match pv.chosen_workout_session {
            None => Err(ResultErrorView::OtherError("No workout session chosen"@)),
            Some(nm) => if session_index_of(pv.workouts, nm) == -1 {
                Err(ResultErrorView::OtherError("Unable to find current workout session"@))
            } else {
                Ok(pv.workouts[session_index_of(pv.workouts, nm)])
            },
        },
    }
}

/// The current profile's chosen session.
pub fn get_current_session(reg: &ReadOutcome, ptr: &ReadOutcome) -> (r: Result<
    WorkoutSession,
    ResultError,
>)
    ensures
        res_view(r) == get_current_session_spec(reg@, ptr@),
{
    let user = match get_current_user(reg, ptr) {
        Ok(user) => user,
        Err(e) => {
            return Err(e);
        },
    };
    let chosen = match user.get_chosen_workout_session() {
        Some(c) => c.clone(),
        None => {
            return Err(ResultError::OtherError("No workout session chosen".to_owned()));
        },
    };
    match find_session(user.get_workouts(), &chosen) {
        Some(i) => Ok(user.workouts[i].clone()),
        None => Err(ResultError::OtherError("Unable to find current workout session".to_owned())),
    }
}

/// The registry document text after replacing the chosen session with
/// `wv`: the old chosen session (and any session equal to it) leaves the
/// profile's list and `wv` is appended, then the profile is upserted.
pub open spec fn save_current_session_spec(
    ro: ReadOutcomeView,
    po: ReadOutcomeView,
    wv: WorkoutSessionView,
) -> Result<Seq<char>, ResultErrorView> {
    match read_profiles_spec(ro) {
        Err(e) => Err(e),
        Ok(uv) => match get_current_session_spec(ro, po) {
            Err(e) => Err(e),
            Ok(cur) => match get_current_user_spec(ro, po) {
                Err(e) => Err(e),
                Ok(pv) => {
                    let pv2 = UserProfileView {
                        workouts: sessions_without(pv.workouts, cur).push(wv),
                        ..pv
                    };
                    Ok(
                        render_contents(
                            ContentsView::Users(UsersView { users: spec_upsert(uv.users, pv2) }),
                        ),
                    )
                },
            },
        },
    }
}

/// Replaces the current profile's chosen session with the given one and
/// returns the registry document text to write back.
#[verifier::rlimit(100)]
pub fn save_current_session(
    reg: &ReadOutcome,
    ptr: &ReadOutcome,
    workout_session: &WorkoutSession,
) -> (r: Result<String, ResultError>)
    ensures
        res_view(r) == save_current_session_spec(reg@, ptr@, workout_session@),
{
    let mut users = match read_profiles(reg) {
        Ok(users) => users,
        Err(e) => {
            return Err(e);
        },
    };
    let current_session = match get_current_session(reg, ptr) {
        Ok(cur) => cur,
        Err(e) => {
            return Err(e);
        },
    };
    let mut user = match get_current_user(reg, ptr) {
        Ok(user) => user,
        Err(e) => {
            return Err(e);
        },
    };
    user.remove_workout(current_session);
    user.add_workout(workout_session.clone());
    users.upsert(user);
    Ok(encode_contents(&FileContents::Users(users)))
}

/// The registry document text after starting a fresh session under the
/// given name for the current profile: an empty session of that name is
/// appended and becomes the chosen one.
pub open spec fn start_session_spec(ro: ReadOutcomeView, po: ReadOutcomeView, nm: Seq<char>) -> Result<
    Seq<char>,
    ResultErrorView,
> {
    match read_profiles_spec(ro) {
        Err(e) => Err(e),
        Ok(uv) => match get_current_user_spec(ro, po) {
            Err(e) => Err(e),
            Ok(pv) => {
                let sv = WorkoutSessionView { sets: Seq::<WorkoutSetView>::empty(), name: nm };
                let pv2 = UserProfileView {
                    chosen_workout_session: Some(nm),
                    workouts: pv.workouts.push(sv),
                    ..pv
                };
                Ok(
                    render_contents(
                        ContentsView::Users(UsersView { users: spec_upsert(uv.users, pv2) }),
                    ),
                )
            },
        },
    }
}

/// Starts a session under the given name for the current profile and
/// returns the registry document text to write back.
pub fn start_session(reg: &ReadOutcome, ptr: &ReadOutcome, name: String) -> (r: Result<
    String,
    ResultError,
>)
    ensures
        res_view(r) == start_session_spec(reg@, ptr@, name@),
{
    let mut users = match read_profiles(reg) {
        Ok(users) => users,
        Err(e) => {
            return Err(e);
        },
    };
    let mut user = match get_current_user(reg, ptr) {
        Ok(user) => user,
        Err(e) => {
            return Err(e);
        },
    };
    let session = WorkoutSession::new(Vec::new(), name.clone());
    proof {
        assert(views_of(Seq::<WorkoutSet>::empty()) =~= Seq::<WorkoutSetView>::empty());
    }
    user.add_workout(session);
    user.set_chosen_workout_session(name);
    users.upsert(user);
    Ok(encode_contents(&FileContents::Users(users)))
}

/// Relies on chrono's `Utc::now` and `DateTime::format`: the stamp of
/// the present day.  The result depends on the clock, so nothing is
/// promised of it.
#[verifier::external_body]
fn now_stamp() -> (s: String) {
    chrono::Utc::now().format("%m-%d-%Y").to_string()
}

/// Starts a session named by the present day's stamp: whatever the
/// clock read, the result is that of starting a session under some
/// name.
pub fn start(reg: &ReadOutcome, ptr: &ReadOutcome) -> (r: Result<String, ResultError>)
    ensures
        exists|nm: Seq<char>| res_view(r) == start_session_spec(reg@, ptr@, nm),
{
    let stamp = now_stamp();
    let r = start_session(reg, ptr, stamp);
    proof {
        assert(res_view(r) == start_session_spec(reg@, ptr@, stamp@));
    }
    r
}

/// The registry document text after choosing the named session for the
/// current profile: the name must match one of its sessions.
pub open spec fn choose_session_spec(ro: ReadOutcomeView, po: ReadOutcomeView, nm: Seq<char>) -> Result<
    Seq<char>,
    ResultErrorView,
> {
    match read_profiles_spec(ro) {
        Err(e) => Err(e),
        Ok(uv) => match get_current_user_spec(ro, po) {
            Err(e) => Err(e),
            Ok(pv) => if session_index_of(pv.workouts, nm) == -1 {
                Err(ResultErrorView::OtherError("Unable to find workout session"@))
            } else {
                let pv2 = UserProfileView { chosen_workout_session: Some(nm), ..pv };
                Ok(
                    render_contents(
                        ContentsView::Users(UsersView { users: spec_upsert(uv.users, pv2) }),
                    ),
                )
            },
        },
    }
}

/// Chooses the named session for the current profile and returns the
/// registry document text to write back.
pub fn choose_session(reg: &ReadOutcome, ptr: &ReadOutcome, name: String) -> (r: Result<
    String,
    ResultError,
>)
    ensures
        res_view(r) == choose_session_spec(reg@, ptr@, name@),
{
    let mut users = match read_profiles(reg) {
        Ok(users) => users,
        Err(e) => {
            return Err(e);
        },
    };
    let mut user = match get_current_user(reg, ptr) {
        Ok(user) => user,
        Err(e) => {
            return Err(e);
        },
    };
    match find_session(user.get_workouts(), &name) {
        Some(_) => {
            user.set_chosen_workout_session(name);
            users.upsert(user);
            Ok(encode_contents(&FileContents::Users(users)))
        },
        None => Err(ResultError::OtherError("Unable to find workout session".to_owned())),
    }
}

/// The registry document text after deleting the chosen session from
/// the current profile; the chosen name stays behind, pointing at
/// nothing until another session is chosen.
pub open spec fn delete_spec(ro: ReadOutcomeView, po: ReadOutcomeView) -> Result<
    Seq<char>,
    ResultErrorView,
> {
    match read_profiles_spec(ro) {
        Err(e) => Err(e),
        Ok(uv) => match get_current_session_spec(ro, po) {
            Err(e) => Err(e),
            Ok(cur) => match get_current_user_spec(ro, po) {
                Err(e) => Err(e),
                Ok(pv) => {
                    let pv2 = UserProfileView {
                        workouts: sessions_without(pv.workouts, cur),
                        ..pv
                    };
                    Ok(
                        render_contents(
                            ContentsView::Users(UsersView { users: spec_upsert(uv.users, pv2) }),
                        ),
                    )
                },
            },
        },
    }
}

/// Deletes the current profile's chosen session and returns the
/// registry document text to write back.
#[verifier::rlimit(100)]
pub fn delete(reg: &ReadOutcome, ptr: &ReadOutcome) -> (r: Result<String, ResultError>)
    ensures
        res_view(r) == delete_spec(reg@, ptr@),
{
    let mut users = match read_profiles(reg) {
        Ok(users) => users,
        Err(e) => {
            return Err(e);
        },
    };
    let current_session = match get_current_session(reg, ptr) {
        Ok(cur) => cur,
        Err(e) => {
            return Err(e);
        },
    };
    let mut user = match get_current_user(reg, ptr) {
        Ok(user) => user,
        Err(e) => {
            return Err(e);
        },
    };
    user.remove_workout(current_session);
    users.upsert(user);
    Ok(encode_contents(&FileContents::Users(users)))
}

} // verus!
