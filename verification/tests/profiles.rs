use workout_tracker::codec::encode_contents;
use workout_tracker::errors::ResultError;
use workout_tracker::user_profile::choose_profile;
use workout_tracker::user_profile::create_profile;
use workout_tracker::user_profile::delete_profile;
use workout_tracker::user_profile::get_current_user;
use workout_tracker::user_profile::read_current_user;
use workout_tracker::user_profile::save_user_profile;
use workout_tracker::user_profile::UserProfile;
use workout_tracker::utils::FileContents;
use workout_tracker::utils::ReadOutcome;

#[test]
fn test_create_and_choose_scenario() {
    let registry_text = create_profile(&ReadOutcome::Missing, "alice".to_string()).unwrap();
    let registry = ReadOutcome::Data(registry_text);
    let pointer_text = choose_profile(&registry, "alice".to_string()).unwrap();
    let pointer = ReadOutcome::Data(pointer_text);
    let current = get_current_user(&registry, &pointer).unwrap();
    assert_eq!(current.get_name(), &"alice".to_string());
    assert!(current.get_workouts().is_empty());
    assert!(current.get_exercises().is_empty());
    assert_eq!(current.get_chosen_workout_session(), None);
    assert_eq!(
        read_current_user(&registry, &pointer).unwrap(),
        "alice".to_string()
    );
}

#[test]
fn test_stale_pointer_scenario() {
    let registry_text = create_profile(&ReadOutcome::Missing, "alice".to_string()).unwrap();
    let registry = ReadOutcome::Data(registry_text);
    let stale = encode_contents(&FileContents::UserProfile(UserProfile::new(
        "bob".to_string(),
    )));
    let pointer = ReadOutcome::Data(stale);
    let current = get_current_user(&registry, &pointer);
    match current {
        Err(ResultError::OtherError(m)) => {
            assert_eq!(m, "Unable to find current user".to_string());
        }
        other => panic!("unexpected result: {:?}", other),
    }
}

#[test]
fn test_pointer_resolves_live_profile() {
    // The pointer snapshot's fields are never trusted: edits made to the
    // registry after choosing still show up through the pointer's name.
    let registry_text = create_profile(&ReadOutcome::Missing, "alice".to_string()).unwrap();
    let pointer_text =
        choose_profile(&ReadOutcome::Data(registry_text.clone()), "alice".to_string()).unwrap();
    let mut edited = UserProfile::new("alice".to_string());
    edited.set_chosen_workout_session("monday".to_string());
    let registry_text =
        save_user_profile(&ReadOutcome::Data(registry_text), &edited).unwrap();
    let current = get_current_user(
        &ReadOutcome::Data(registry_text),
        &ReadOutcome::Data(pointer_text),
    )
    .unwrap();
    assert_eq!(
        current.get_chosen_workout_session(),
        Some(&"monday".to_string())
    );
}

#[test]
fn test_delete_profile_and_missing_delete() {
    let registry_text = create_profile(&ReadOutcome::Missing, "alice".to_string()).unwrap();
    let registry_text =
        create_profile(&ReadOutcome::Data(registry_text), "bob".to_string()).unwrap();
    let registry_text =
        delete_profile(&ReadOutcome::Data(registry_text), "alice".to_string()).unwrap();
    let reg = ReadOutcome::Data(registry_text);
    let missing = delete_profile(&reg, "alice".to_string());
    assert!(matches!(missing, Err(ResultError::OtherError(_))));
    let pointer = choose_profile(&reg, "bob".to_string()).unwrap();
    let current = get_current_user(&reg, &ReadOutcome::Data(pointer)).unwrap();
    assert_eq!(current.get_name(), &"bob".to_string());
}

#[test]
fn test_choose_missing_profile_fails() {
    let result = choose_profile(&ReadOutcome::Missing, "ghost".to_string());
    match result {
        Err(ResultError::OtherError(m)) => {
            assert_eq!(m, "User does not exist".to_string());
        }
        other => panic!("unexpected result: {:?}", other),
    }
}

#[test]
fn test_pointer_file_with_registry_document_fails() {
    let registry_text = create_profile(&ReadOutcome::Missing, "alice".to_string()).unwrap();
    let registry = ReadOutcome::Data(registry_text.clone());
    // A registry document where the snapshot should be is refused.
    let current = get_current_user(&registry, &ReadOutcome::Data(registry_text));
    match current {
        Err(ResultError::OtherError(m)) => {
            assert_eq!(m, "Unable to read current user".to_string());
        }
        other => panic!("unexpected result: {:?}", other),
    }
}

#[test]
fn test_missing_pointer_file_fails() {
    // A missing pointer file reads as an empty registry document, which is
    // not a profile snapshot.
    let registry_text = create_profile(&ReadOutcome::Missing, "alice".to_string()).unwrap();
    let current = get_current_user(&ReadOutcome::Data(registry_text), &ReadOutcome::Missing);
    assert!(matches!(current, Err(ResultError::OtherError(_))));
}

#[test]
fn test_save_user_profile_keeps_order() {
    let text = create_profile(&ReadOutcome::Missing, "alice".to_string()).unwrap();
    let text = create_profile(&ReadOutcome::Data(text), "bob".to_string()).unwrap();
    let text = create_profile(&ReadOutcome::Data(text), "carol".to_string()).unwrap();
    let mut edited = UserProfile::new("bob".to_string());
    edited.set_chosen_workout_session("tuesday".to_string());
    let text = save_user_profile(&ReadOutcome::Data(text), &edited).unwrap();
    let users = workout_tracker::user_profile::read_profiles(&ReadOutcome::Data(text)).unwrap();
    let names: Vec<String> = users.list().iter().map(|u| u.get_name().clone()).collect();
    assert_eq!(
        names,
        vec!["alice".to_string(), "bob".to_string(), "carol".to_string()]
    );
    assert_eq!(users.list()[1], edited);
}

#[test]
fn test_io_error_passes_through() {
    let result = create_profile(
        &ReadOutcome::Failure("device not ready".to_string()),
        "alice".to_string(),
    );
    assert!(matches!(
        result,
        Err(ResultError::FileError(
            workout_tracker::errors::FileError::IoError(_)
        ))
    ));
}
