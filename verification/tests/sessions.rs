use workout_tracker::errors::ResultError;
use workout_tracker::user_profile::create_profile;
use workout_tracker::user_profile::choose_profile;
use workout_tracker::user_profile::read_profiles;
use workout_tracker::utils::ReadOutcome;
use workout_tracker::workout_session::choose_session;
use workout_tracker::workout_session::delete;
use workout_tracker::workout_session::get_current_session;
use workout_tracker::workout_session::save_current_session;
use workout_tracker::workout_session::start_session;
use workout_tracker::workout_session::WorkoutSession;
use workout_tracker::workout_set::create_set;
use workout_tracker::workout_set::WorkoutSet;

fn registry_with_current_alice() -> (ReadOutcome, ReadOutcome) {
    let registry_text = create_profile(&ReadOutcome::Missing, "alice".to_string()).unwrap();
    let registry = ReadOutcome::Data(registry_text);
    let pointer_text = choose_profile(&registry, "alice".to_string()).unwrap();
    (registry, ReadOutcome::Data(pointer_text))
}

#[test]
fn test_start_session_appends_and_chooses() {
    let (registry, pointer) = registry_with_current_alice();
    let text = start_session(&registry, &pointer, "05-06-2024".to_string()).unwrap();
    let registry = ReadOutcome::Data(text);
    let session = get_current_session(&registry, &pointer).unwrap();
    assert_eq!(session.get_name(), &"05-06-2024".to_string());
    assert!(session.get_sets().is_empty());
}

#[test]
fn test_get_current_session_without_choice_fails() {
    let (registry, pointer) = registry_with_current_alice();
    let result = get_current_session(&registry, &pointer);
    match result {
        Err(ResultError::OtherError(m)) => {
            assert_eq!(m, "No workout session chosen".to_string());
        }
        other => panic!("unexpected result: {:?}", other),
    }
}

#[test]
fn test_choose_session_requires_existing_name() {
    let (registry, pointer) = registry_with_current_alice();
    let text = start_session(&registry, &pointer, "05-06-2024".to_string()).unwrap();
    let registry = ReadOutcome::Data(text);
    let missing = choose_session(&registry, &pointer, "never".to_string());
    assert!(matches!(missing, Err(ResultError::OtherError(_))));
    let text = choose_session(&registry, &pointer, "05-06-2024".to_string()).unwrap();
    let registry = ReadOutcome::Data(text);
    let session = get_current_session(&registry, &pointer).unwrap();
    assert_eq!(session.get_name(), &"05-06-2024".to_string());
}

#[test]
fn test_create_set_records_against_current_session() {
    let (registry, pointer) = registry_with_current_alice();
    let text = start_session(&registry, &pointer, "05-06-2024".to_string()).unwrap();
    let registry = ReadOutcome::Data(text);
    let text = create_set(&registry, &pointer, "squat".to_string(), 5, 225, false).unwrap();
    let registry = ReadOutcome::Data(text);
    let session = get_current_session(&registry, &pointer).unwrap();
    assert_eq!(session.get_sets().len(), 1);
    let set = &session.get_sets()[0];
    assert_eq!(set.get_exercise(), &"squat".to_string());
    assert_eq!(set.get_reps(), 5);
    assert_eq!(set.get_weight(), 225);
    assert!(!set.get_is_dropset());
}

#[test]
fn test_save_current_session_replaces_it() {
    let (registry, pointer) = registry_with_current_alice();
    let text = start_session(&registry, &pointer, "05-06-2024".to_string()).unwrap();
    let registry = ReadOutcome::Data(text);
    let mut replacement = WorkoutSession::new(Vec::new(), "05-06-2024".to_string());
    replacement.add_set(WorkoutSet::new("deadlift".to_string(), 1, 315, false));
    let text = save_current_session(&registry, &pointer, &replacement).unwrap();
    let registry = ReadOutcome::Data(text);
    let session = get_current_session(&registry, &pointer).unwrap();
    assert_eq!(session, replacement);
    let users = read_profiles(&registry).unwrap();
    assert_eq!(users.list()[0].get_workouts().len(), 1);
}

#[test]
fn test_delete_removes_current_session() {
    let (registry, pointer) = registry_with_current_alice();
    let text = start_session(&registry, &pointer, "05-06-2024".to_string()).unwrap();
    let registry = ReadOutcome::Data(text);
    let text = delete(&registry, &pointer).unwrap();
    let registry = ReadOutcome::Data(text);
    let users = read_profiles(&registry).unwrap();
    assert!(users.list()[0].get_workouts().is_empty());
    // The chosen name stays behind, so the current session is unresolvable.
    let result = get_current_session(&registry, &pointer);
    assert!(matches!(result, Err(ResultError::OtherError(_))));
}

#[test]
fn test_session_getters_and_equality() {
    let mut session = WorkoutSession::new(Vec::new(), "07-08-2024".to_string());
    session.add_set(WorkoutSet::new("row".to_string(), 8, 135, true));
    assert_eq!(session.get_name(), &"07-08-2024".to_string());
    assert_eq!(session.get_sets().len(), 1);
    let twin = session.clone();
    assert_eq!(session, twin);
    let other = WorkoutSession::new(Vec::new(), "07-08-2024".to_string());
    assert_ne!(session, other);
}

#[test]
fn test_start_names_session_by_day_stamp() {
    let (registry, pointer) = registry_with_current_alice();
    let text = workout_tracker::workout_session::start(&registry, &pointer).unwrap();
    let registry = ReadOutcome::Data(text);
    let session = get_current_session(&registry, &pointer).unwrap();
    // The name is the day stamp: two digits, two digits, four digits.
    let name = session.get_name();
    assert_eq!(name.len(), 10);
    assert_eq!(name.as_bytes()[2], b'-');
    assert_eq!(name.as_bytes()[5], b'-');
    assert!(session.get_sets().is_empty());
}
