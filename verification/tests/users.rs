use foodbasket::users::{UserService, UserServiceError};

#[test]
fn test_check_user_credentials_not_found() {
    let test_email = "test@foodbasket.app";
    let raw_password = "password123";

    let svc = UserService::new();
    let result = svc.check_user_credentials(test_email, raw_password);

    assert!(result.is_err());
    assert!(matches!(result, Err(UserServiceError::UserNotFound)));
}

#[test]
fn test_check_user_credentials_success() {
    let test_email = "test@foodbasket.app";
    let raw_password = "password123";

    let mut svc = UserService::new();
    svc.register_user("Test User", test_email, Some(raw_password), 0)
        .unwrap();

    let result = svc.check_user_credentials(test_email, raw_password);

    assert!(result.is_ok());
    let user = result.unwrap();
    assert_eq!(user.email, test_email);
}

#[test]
fn test_register_user_conflict() {
    let test_email = "test@foodbasket.app";
    let raw_password = "password123";

    let mut svc = UserService::new();
    svc.register_user("Test User", test_email, Some(raw_password), 0)
        .unwrap();

    let result = svc.register_user("Test User", test_email, Some(raw_password), 0);

    assert!(result.is_err());
    assert!(matches!(result, Err(UserServiceError::UserAlreadyExists)))
}

#[test]
fn test_register_user_success() {
    let test_email = "test@foodbasket.app";
    let raw_password = "password123";

    let mut svc = UserService::new();
    let result = svc.register_user("Test User", test_email, Some(raw_password), 0);

    assert!(result.is_ok());

    let user = result.unwrap();
    assert_eq!(user.email, test_email);
}

#[test]
fn test_check_user_credentials_wrong_password() {
    let mut svc = UserService::new();
    svc.register_user("Test User", "a@b.c", Some("right_password"), 7)
        .unwrap();
    let result = svc.check_user_credentials("a@b.c", "wrong_password");
    assert!(matches!(result, Err(UserServiceError::WrongPassword)));
}

#[test]
fn test_check_user_credentials_no_password() {
    let mut svc = UserService::new();
    svc.register_user("Test User", "a@b.c", None, 7).unwrap();
    let result = svc.check_user_credentials("a@b.c", "anything");
    assert!(matches!(
        result,
        Err(UserServiceError::UserDoesNotUsePassword)
    ));
}

#[test]
fn test_check_user_credentials_case_insensitive_store() {
    let mut svc = UserService::new();
    svc.register_user("Test User", "MiXeD@Example.COM", Some("password123"), 7)
        .unwrap();
    // the store folds its own column; the given email must already be lower
    let result = svc.check_user_credentials("mixed@example.com", "password123");
    assert!(result.is_ok());
}
