//! One recorded set: which exercise was performed, how many repetitions,
//! the weight moved, and whether the set was a dropset.
//!
//! The weight is kept as a whole number of the caller's smallest unit, so
//! that equality of sets is exact.

use vstd::prelude::*;

use crate::errors::ResultError;
use crate::errors::ResultErrorView;
use crate::res_view;
use crate::utils::ReadOutcome;
use crate::utils::ReadOutcomeView;
use crate::workout_session::get_current_session;
use crate::workout_session::get_current_session_spec;
use crate::workout_session::save_current_session;
use crate::workout_session::save_current_session_spec;
use crate::workout_session::WorkoutSessionView;

verus! {

#[derive(Debug)]
pub struct WorkoutSet {
    pub exercise: String,
    pub reps: u32,
    pub weight: u32,
    pub is_dropset: bool,
}

/// Mathematical image of a `WorkoutSet`.
pub struct WorkoutSetView {
    pub exercise: Seq<char>,
    pub reps: u32,
    pub weight: u32,
    pub is_dropset: bool,
}

impl View for WorkoutSet {
    type V = WorkoutSetView;

    open spec fn view(&self) -> WorkoutSetView {
        WorkoutSetView {
            exercise: self.exercise@,
            reps: self.reps,
            weight: self.weight,
            is_dropset: self.is_dropset,
        }
    }
}

impl WorkoutSet {
    pub fn new(exercise: String, reps: u32, weight: u32, is_dropset: bool) -> (s: WorkoutSet)
        ensures
            s@ == (WorkoutSetView { exercise: exercise@, reps, weight, is_dropset }),
    {
        WorkoutSet { exercise, reps, weight, is_dropset }
    }

    pub fn get_exercise(&self) -> (r: &String)
        ensures
            r@ == self@.exercise,
    {
        &self.exercise
    }

    pub fn get_reps(&self) -> (r: u32)
        ensures
            r == self@.reps,
    {
        self.reps
    }

    pub fn get_weight(&self) -> (r: u32)
        ensures
            r == self@.weight,
    {
        self.weight
    }

    pub fn get_is_dropset(&self) -> (r: bool)
        ensures
            r == self@.is_dropset,
    {
        self.is_dropset
    }
}

impl Clone for WorkoutSet {
    fn clone(&self) -> (r: Self)
        ensures
            r == *self,
    {
        WorkoutSet {
            exercise: self.exercise.clone(),
            reps: self.reps,
            weight: self.weight,
            is_dropset: self.is_dropset,
        }
    }
}

impl PartialEq for WorkoutSet {
    fn eq(&self, other: &Self) -> (r: bool) {
        self.exercise == other.exercise && self.reps == other.reps && self.weight == other.weight
            && self.is_dropset == other.is_dropset
    }
}

impl vstd::std_specs::cmp::PartialEqSpecImpl for WorkoutSet {
    open spec fn obeys_eq_spec() -> bool {
        true
    }

    open spec fn eq_spec(&self, other: &Self) -> bool {
        self@ == other@
    }
}

/// The registry document text after recording one set against the
/// current profile's chosen session.
pub open spec fn create_set_spec(
    ro: ReadOutcomeView,
    po: ReadOutcomeView,
    exercise: Seq<char>,
    reps: u32,
    weight: u32,
    is_dropset: bool,
) -> Result<Seq<char>, ResultErrorView> {
    match get_current_session_spec(ro, po) {
        Err(e) => Err(e),
        Ok(cur) => save_current_session_spec(
            ro,
            po,
            WorkoutSessionView {
                sets: cur.sets.push(WorkoutSetView { exercise, reps, weight, is_dropset }),
                name: cur.name,
            },
        ),
    }
}

/// Records one set against the current profile's chosen session and
/// returns the registry document text to write back.
pub fn create_set(
    reg: &ReadOutcome,
    ptr: &ReadOutcome,
    exercise: String,
    reps: u32,
    weight: u32,
    is_dropset: bool,
) -> (r: Result<String, ResultError>)
    ensures
        res_view(r) == create_set_spec(reg@, ptr@, exercise@, reps, weight, is_dropset),
{
    let new_set = WorkoutSet::new(exercise, reps, weight, is_dropset);
    let mut workout_s = match get_current_session(reg, ptr) {
        Ok(w) => w,
        Err(e) => {
            return Err(e);
        },
    };
    workout_s.add_set(new_set);
    save_current_session(reg, ptr, &workout_s)
}

} // verus!
