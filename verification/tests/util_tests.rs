use mudibot::util::{choose_token, BoundedInteger, BoundedIntegerError, StartupError};

#[test]
fn get_value_in_bound() {
    assert_eq!(BoundedInteger::new(13, 0, 13).unwrap().value(), 13,);
}

#[test]
fn smaller_lower_bound() {
    assert_eq!(
        BoundedInteger::new(14, 14, 13),
        Err(BoundedIntegerError::InvalidBound),
    );
}

#[test]
fn too_small() {
    assert_eq!(
        BoundedInteger::new(-1, 0, 1),
        Err(BoundedIntegerError::TooSmall("-1".to_string())),
    );
}

#[test]
fn too_big() {
    assert_eq!(
        BoundedInteger::new(2, 1, 1),
        Err(BoundedIntegerError::TooBig("2".to_string())),
    );
}

#[test]
fn bound_value_is_kept() {
    assert_eq!(BoundedInteger::new(-255, -255, 255).unwrap().value(), -255);
    assert_eq!(BoundedInteger::new(255, -255, 255).unwrap().value(), 255);
}

#[test]
fn token_prefers_the_environment() {
    assert_eq!(
        choose_token(Some("SECRET-REDACTED".to_string()), Some("other".to_string())),
        Ok("SECRET-REDACTED".to_string())
    );
    assert_eq!(
        choose_token(None, Some("other".to_string())),
        Ok("other".to_string())
    );
    assert_eq!(choose_token(None, None), Err(StartupError::MissingToken));
}
