use foodbasket::auth::{AuthError, GetMeResponse};
use foodbasket::auth::{session_for_user, session_me_response};
use foodbasket::dtos::{ErrorResponse as PlainErrorResponse, MessageResponse};
use foodbasket::errors::AppError;
use foodbasket::ids::Uuid;
use foodbasket::responses::ErrorResponse;
use foodbasket::sessions::{Session, SessionServiceError};
use foodbasket::users::{User, UserServiceError};

#[test]
fn test_auth_error_extract_codes() {
    let cases: Vec<(AuthError, u16, &str, &str)> = vec![
        (
            AuthError::ValidationFailed(String::from("bad body")),
            400,
            "VALIDATION_FAILED",
            "bad body",
        ),
        (
            AuthError::WrongPassword(String::from("w")),
            403,
            "WRONG_PASSWORD",
            "w",
        ),
        (
            AuthError::UserNotFound(String::from("n")),
            404,
            "USER_NOT_FOUND",
            "n",
        ),
        (
            AuthError::UserDoesNotUsePassword(String::from("p")),
            422,
            "USER_NO_PASSWORD",
            "p",
        ),
        (
            AuthError::UserAlreadyExists(String::from("e")),
            409,
            "USER_ALREADY_EXISTS",
            "e",
        ),
        (
            AuthError::Unauthenticated(String::from("u")),
            401,
            "UNAUTHENTICATED",
            "u",
        ),
        (
            AuthError::Unknown(String::from("boom")),
            500,
            "INTERNAL_SERVER_ERROR",
            "boom",
        ),
    ];
    for (err, status, code, message) in cases {
        let (s, c, m) = err.extract();
        assert_eq!(s, status);
        assert_eq!(c, code);
        assert_eq!(m, message);
    }
}

#[test]
fn test_auth_error_from_service_errors() {
    let (s, c, m) = AuthError::from_user_error(UserServiceError::UserNotFound).extract();
    assert_eq!((s, c.as_str(), m.as_str()), (404, "USER_NOT_FOUND", "User not found"));
    let (s, c, _) = AuthError::from_user_error(UserServiceError::UserAlreadyExists).extract();
    assert_eq!((s, c.as_str()), (409, "USER_ALREADY_EXISTS"));
    let (s, c, _) = AuthError::from_session_error(SessionServiceError::Unavailable).extract();
    assert_eq!((s, c.as_str()), (500, "INTERNAL_SERVER_ERROR"));
}

#[test]
fn test_app_error_extract() {
    let (s, c, m) = AppError::Unknown(String::from("db down")).extract();
    assert_eq!((s, c.as_str(), m.as_str()), (500, "INTERNAL_SERVER_ERROR", "db down"));
    let (s, c, _) = AppError::Auth(AuthError::Unauthenticated(String::from("no cookie"))).extract();
    assert_eq!((s, c.as_str()), (401, "UNAUTHENTICATED"));
}

#[test]
fn test_session_for_user_and_me_response() {
    let user = User {
        id: Uuid { value: 77 },
        name: String::from("Test User"),
        email: String::from("a@example.com"),
        password: None,
        created_at: 0,
        updated_at: 0,
        deleted_at: None,
    };
    let sess = session_for_user(&user, 555);
    assert_eq!(sess.user_id, Some(Uuid { value: 77 }));
    assert_eq!(sess.user_email.as_deref(), Some("a@example.com"));
    assert_eq!(sess.created_at, 555);

    let me: GetMeResponse = session_me_response(&sess).unwrap();
    assert_eq!(me.id, "00000000-0000-0000-0000-00000000004d");
    assert_eq!(me.email, "a@example.com");

    let anonymous = Session {
        user_id: None,
        user_email: None,
        created_at: 0,
    };
    assert!(session_me_response(&anonymous).is_err());
}

#[test]
fn test_response_constructors() {
    let m = MessageResponse::new("healthy");
    assert_eq!(m.message, "healthy");
    let e = PlainErrorResponse::new("nope");
    assert_eq!(e.error, "nope");
    let r = ErrorResponse::new(404, "USER_NOT_FOUND", "User not found");
    assert_eq!(r.status, 404);
    assert_eq!(r.code, "USER_NOT_FOUND");
    assert_eq!(r.message, "User not found");
}
