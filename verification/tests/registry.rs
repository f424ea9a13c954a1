use workout_tracker::errors::ResultError;
use workout_tracker::user_profile::UserProfile;
use workout_tracker::user_profile::Users;

#[test]
fn test_new() {
    let users = Users::new();
    assert_eq!(users.list(), &Vec::new());
}

#[test]
fn test_add_user() {
    let mut users = Users::new();
    let user = UserProfile::new("test".to_string());
    users.add_user(user.clone());
    assert_eq!(users.list(), &vec![user]);
}

#[test]
fn test_user_exists() {
    let mut users = Users::new();
    let user = UserProfile::new("test".to_string());
    users.add_user(user.clone());
    assert!(users.user_exists(&user.get_name()));
}

#[test]
fn test_user_does_not_exist() {
    let users = Users::new();
    assert!(!users.user_exists(&"test".to_string()));
}

#[test]
fn test_delete_user() {
    let mut users = Users::new();
    let user = UserProfile::new("test".to_string());
    users.add_user(user.clone());
    users.delete_user(user.get_name().to_string()).unwrap();
    assert_eq!(users.list(), &Vec::new());
}

#[test]
fn test_delete_user_does_not_exist() {
    let mut users = Users::new();
    let user = UserProfile::new("test".to_string());
    users.add_user(user.clone());
    let result = users.delete_user("test2".to_string());
    assert!(matches!(result, Err(ResultError::OtherError(_))));
}

#[test]
fn test_get_user() {
    let mut users = Users::new();
    let user = UserProfile::new("test".to_string());
    users.add_user(user.clone());
    assert_eq!(users.get_user(&user.get_name()), Some(&user));
}

#[test]
fn test_get_user_does_not_exist() {
    let users = Users::new();
    assert_eq!(users.get_user(&"test".to_string()), None);
}

#[test]
fn test_upsert_adds_missing_profile() {
    let mut users = Users::new();
    let user = UserProfile::new("ada".to_string());
    users.upsert(user.clone());
    assert_eq!(users.list(), &vec![user]);
}

#[test]
fn test_upsert_replaces_in_place() {
    let mut users = Users::new();
    users.add_user(UserProfile::new("ada".to_string()));
    users.add_user(UserProfile::new("bob".to_string()));
    let mut replacement = UserProfile::new("ada".to_string());
    replacement.set_chosen_workout_session("monday".to_string());
    users.upsert(replacement.clone());
    assert_eq!(users.list().len(), 2);
    assert_eq!(users.list()[0], replacement);
    assert_eq!(users.list()[1].get_name(), &"bob".to_string());
}

#[test]
fn test_upsert_twice_same_as_once() {
    let mut once = Users::new();
    let mut twice = Users::new();
    let user = UserProfile::new("ada".to_string());
    once.upsert(user.clone());
    twice.upsert(user.clone());
    twice.upsert(user.clone());
    assert_eq!(once, twice);
    assert_eq!(twice.list().len(), 1);
}

#[test]
fn test_delete_then_get_finds_nothing() {
    let mut users = Users::new();
    users.add_user(UserProfile::new("ada".to_string()));
    users.add_user(UserProfile::new("bob".to_string()));
    users.delete_user("ada".to_string()).unwrap();
    assert_eq!(users.get_user(&"ada".to_string()), None);
    assert!(!users.user_exists(&"ada".to_string()));
    assert!(users.user_exists(&"bob".to_string()));
}

#[test]
fn test_delete_missing_keeps_registry() {
    let mut users = Users::new();
    let result = users.delete_user("nonexistent".to_string());
    assert!(matches!(result, Err(ResultError::OtherError(_))));
    assert_eq!(users.list(), &Vec::new());
}
