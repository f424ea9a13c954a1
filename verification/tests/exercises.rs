use workout_tracker::errors::ResultError;
use workout_tracker::exercise::create_exercise;
use workout_tracker::exercise::delete_exercise;
use workout_tracker::exercise::get_exercise;
use workout_tracker::exercise::Exercise;
use workout_tracker::user_profile::choose_profile;
use workout_tracker::user_profile::create_profile;
use workout_tracker::user_profile::get_current_user;
use workout_tracker::utils::ReadOutcome;

fn registry_with_current_alice() -> (ReadOutcome, ReadOutcome) {
    let registry_text = create_profile(&ReadOutcome::Missing, "alice".to_string()).unwrap();
    let registry = ReadOutcome::Data(registry_text);
    let pointer_text = choose_profile(&registry, "alice".to_string()).unwrap();
    (registry, ReadOutcome::Data(pointer_text))
}

#[test]
fn test_create_and_get_exercise() {
    let (registry, pointer) = registry_with_current_alice();
    let text = create_exercise(
        &registry,
        &pointer,
        "squat".to_string(),
        Some("compound lift".to_string()),
        vec!["quads".to_string(), "glutes".to_string()],
        "barbell".to_string(),
    )
    .unwrap();
    let registry = ReadOutcome::Data(text);
    let exercise = get_exercise(&registry, &pointer, "squat".to_string()).unwrap();
    assert_eq!(exercise.get_name(), &"squat".to_string());
    assert_eq!(
        exercise,
        Exercise::new(
            "squat".to_string(),
            Some("compound lift".to_string()),
            vec!["quads".to_string(), "glutes".to_string()],
            "barbell".to_string(),
        )
    );
}

#[test]
fn test_missing_description_is_empty() {
    let exercise = Exercise::new(
        "plank".to_string(),
        None,
        vec!["core".to_string()],
        "none".to_string(),
    );
    assert_eq!(
        exercise,
        Exercise::new(
            "plank".to_string(),
            Some(String::new()),
            vec!["core".to_string()],
            "none".to_string(),
        )
    );
}

#[test]
fn test_get_missing_exercise_fails() {
    let (registry, pointer) = registry_with_current_alice();
    let result = get_exercise(&registry, &pointer, "squat".to_string());
    match result {
        Err(ResultError::OtherError(m)) => {
            assert_eq!(m, "Exercise not found".to_string());
        }
        other => panic!("unexpected result: {:?}", other),
    }
}

#[test]
fn test_delete_exercise_removes_by_name() {
    let (registry, pointer) = registry_with_current_alice();
    let text = create_exercise(
        &registry,
        &pointer,
        "squat".to_string(),
        None,
        vec![],
        "barbell".to_string(),
    )
    .unwrap();
    let text = create_exercise(
        &ReadOutcome::Data(text),
        &pointer,
        "row".to_string(),
        None,
        vec![],
        "cable".to_string(),
    )
    .unwrap();
    let text = delete_exercise(&ReadOutcome::Data(text), &pointer, "squat").unwrap();
    let registry = ReadOutcome::Data(text);
    assert!(get_exercise(&registry, &pointer, "squat".to_string()).is_err());
    assert!(get_exercise(&registry, &pointer, "row".to_string()).is_ok());
    let current = get_current_user(&registry, &pointer).unwrap();
    assert_eq!(current.get_exercises().len(), 1);
}

#[test]
fn test_exercise_setters() {
    let mut exercise = Exercise::new(
        "press".to_string(),
        None,
        vec!["shoulders".to_string()],
        "dumbbell".to_string(),
    );
    exercise.set_exercise_name("overhead press".to_string());
    exercise.set_exercise_description("strict form".to_string());
    exercise.set_exercise_muscle_groups(vec!["delts".to_string()]);
    exercise.set_exercise_equipment("barbell".to_string());
    assert_eq!(
        exercise,
        Exercise::new(
            "overhead press".to_string(),
            Some("strict form".to_string()),
            vec!["delts".to_string()],
            "barbell".to_string(),
        )
    );
}

#[test]
fn test_exercise_ops_need_current_user() {
    let registry_text = create_profile(&ReadOutcome::Missing, "alice".to_string()).unwrap();
    let registry = ReadOutcome::Data(registry_text);
    let result = create_exercise(
        &registry,
        &ReadOutcome::Missing,
        "squat".to_string(),
        None,
        vec![],
        "barbell".to_string(),
    );
    assert!(matches!(result, Err(ResultError::OtherError(_))));
}
