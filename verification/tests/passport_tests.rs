use sphagnumdb::passport::{Passport, PassportError};

#[test]
fn passport_test_new() {
    let passport = Passport::new();
    assert!(passport.is_ok(), "Passport::new should return Ok");
    let passport = passport.unwrap();
    assert_eq!(
        passport.field, "lawn",
        "New passport should have default field 'lawn'"
    );
}

#[test]
fn test_get_field_empty() {
    let mut passport = Passport::new().unwrap();
    passport.field = String::new();
    let result = passport.get_field();
    assert!(result.is_err(), "get_field should fail with empty field");
    match result {
        Err(PassportError::FieldRetrievalError) => (),
        _ => panic!("get_field should return FieldRetrievalError for empty field"),
    }
}

#[test]
fn test_get_field_success() {
    let passport = Passport::new().unwrap();
    let field = passport.get_field();
    assert!(
        field.is_ok(),
        "get_field should succeed with non-empty field"
    );
    assert_eq!(field.unwrap(), &"lawn", "get_field should return 'lawn'");
}

#[test]
fn test_set_field_empty() {
    let mut passport = Passport::new().unwrap();
    let result = passport.set_field("".to_string());
    assert!(result.is_err(), "set_field should fail with empty value");
    match result {
        Err(PassportError::FieldModificationError) => (),
        _ => panic!("set_field should return FieldModificationError for empty value"),
    }
    assert_eq!(
        passport.field, "lawn",
        "Field should remain 'lawn' after failed set"
    );
}

#[test]
fn test_set_field_success() {
    let mut passport = Passport::new().unwrap();
    let result = passport.set_field("new_value".to_string());
    assert!(
        result.is_ok(),
        "set_field should succeed with non-empty value"
    );
    assert_eq!(
        passport.field, "new_value",
        "Field should be updated to 'new_value'"
    );
}
