use ws_relay::status::RustError;

#[test]
fn status_codes_are_zero_one_two() {
    assert_eq!(RustError::Success.code(), 0);
    assert_eq!(RustError::Error.code(), 1);
    assert_eq!(RustError::MigrationError.code(), 2);
}

#[test]
fn status_of_a_run_follows_its_first_failure() {
    assert_eq!(RustError::of_run(false, false, false), RustError::Error);
    assert_eq!(RustError::of_run(false, true, true), RustError::Error);
    assert_eq!(RustError::of_run(true, false, false), RustError::MigrationError);
    assert_eq!(RustError::of_run(true, false, true), RustError::MigrationError);
    assert_eq!(RustError::of_run(true, true, false), RustError::Error);
    assert_eq!(RustError::of_run(true, true, true), RustError::Success);
}
