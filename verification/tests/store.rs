use workout_tracker::codec::decode_contents;
use workout_tracker::codec::encode_contents;
use workout_tracker::errors::FileError;
use workout_tracker::errors::ResultError;
use workout_tracker::exercise::Exercise;
use workout_tracker::user_profile::read_profiles;
use workout_tracker::user_profile::UserProfile;
use workout_tracker::user_profile::Users;
use workout_tracker::utils::read_file;
use workout_tracker::utils::FileContents;
use workout_tracker::utils::ReadOutcome;
use workout_tracker::workout_session::WorkoutSession;
use workout_tracker::workout_set::WorkoutSet;

fn sample_registry() -> Users {
    let mut users = Users::new();
    let mut ada = UserProfile::new("ada".to_string());
    let mut session = WorkoutSession::new(Vec::new(), "01-02-2024".to_string());
    session.add_set(WorkoutSet::new("squat".to_string(), 5, 225, false));
    session.add_set(WorkoutSet::new("bench \"pr\" day".to_string(), 3, 185, true));
    ada.add_workout(session);
    ada.set_chosen_workout_session("01-02-2024".to_string());
    ada.add_exercise(Exercise::new(
        "squat".to_string(),
        Some("back\\hip hinge\ncompound".to_string()),
        vec!["quads".to_string(), "glutes".to_string()],
        "barbell".to_string(),
    ));
    users.add_user(ada);
    users.add_user(UserProfile::new("bob".to_string()));
    users
}

#[test]
fn test_registry_round_trip() {
    let users = sample_registry();
    let text = encode_contents(&FileContents::Users(users));
    let back = decode_contents(&text).unwrap();
    assert_eq!(back, FileContents::Users(sample_registry()));
}

#[test]
fn test_snapshot_round_trip() {
    let mut profile = UserProfile::new("emma".to_string());
    profile.add_workout(WorkoutSession::new(Vec::new(), "03-04-2025".to_string()));
    let text = encode_contents(&FileContents::UserProfile(profile.clone()));
    let back = decode_contents(&text).unwrap();
    assert_eq!(back, FileContents::UserProfile(profile));
}

#[test]
fn test_encode_exact_text() {
    let mut users = Users::new();
    let mut ada = UserProfile::new("ada".to_string());
    let mut session = WorkoutSession::new(Vec::new(), "01-02-2024".to_string());
    session.add_set(WorkoutSet::new("squat".to_string(), 5, 225, false));
    ada.add_workout(session);
    ada.set_chosen_workout_session("01-02-2024".to_string());
    users.add_user(ada);
    let text = encode_contents(&FileContents::Users(users));
    let mut expected = String::new();
    expected.push_str("{\"Users\":{\"users\":[{\"name\":\"ada\",");
    expected.push_str("\"chosen_workout_session\":\"01-02-2024\",");
    expected.push_str("\"workouts\":[{\"sets\":[{\"exercise\":\"squat\",\"reps\":5,");
    expected.push_str("\"weight\":225,\"is_dropset\":false}],\"name\":\"01-02-2024\"}],");
    expected.push_str("\"created_exercises\":[]}]}}");
    assert_eq!(text, expected);
}

#[test]
fn test_encode_escapes_specials() {
    let mut users = Users::new();
    users.add_user(UserProfile::new("a\"b\\c\u{1}".to_string()));
    let text = encode_contents(&FileContents::Users(users.clone()));
    let mut expected = String::new();
    expected.push_str("{\"Users\":{\"users\":[{\"name\":\"a\\\"b\\\\c\\u0001\",");
    expected.push_str("\"chosen_workout_session\":null,\"workouts\":[],");
    expected.push_str("\"created_exercises\":[]}]}}");
    assert_eq!(text, expected);
    let back = decode_contents(&text).unwrap();
    assert_eq!(back, FileContents::Users(users));
}

#[test]
fn test_missing_file_is_empty_registry() {
    let contents = read_file(&ReadOutcome::Missing);
    assert_eq!(contents, Ok(FileContents::Users(Users::new())));
    let users = read_profiles(&ReadOutcome::Missing).unwrap();
    assert_eq!(users, Users::new());
}

#[test]
fn test_invalid_text_is_decode_error() {
    let contents = read_file(&ReadOutcome::Data("not json".to_string()));
    assert!(matches!(
        contents,
        Err(ResultError::FileError(FileError::SerdeError(_)))
    ));
    let loaded = read_profiles(&ReadOutcome::Data("not json".to_string()));
    assert!(matches!(
        loaded,
        Err(ResultError::FileError(FileError::SerdeError(_)))
    ));
}

#[test]
fn test_failed_read_is_io_error() {
    let contents = read_file(&ReadOutcome::Failure("permission denied".to_string()));
    match contents {
        Err(ResultError::FileError(FileError::IoError(m))) => {
            assert_eq!(m, "permission denied".to_string());
        }
        other => panic!("unexpected result: {:?}", other),
    }
}

#[test]
fn test_write_then_read_same_path() {
    let users = sample_registry();
    let text = encode_contents(&FileContents::Users(users.clone()));
    let contents = read_file(&ReadOutcome::Data(text)).unwrap();
    assert_eq!(contents, FileContents::Users(users));
}

#[test]
fn test_decode_rejects_trailing_text() {
    let users = sample_registry();
    let mut text = encode_contents(&FileContents::Users(users));
    text.push(' ');
    assert!(decode_contents(&text).is_none());
}
