use shotlite::startup::{
    delete_outcome, enabled_from_query_status, startup_command, write_outcome, StartupError, ERROR_FILE_NOT_FOUND,
    ERROR_SUCCESS,
};

#[test]
fn startup_command_runs_tray_mode() {
    assert_eq!(startup_command(r"C:\tools\shotlite.exe"), r#""C:\tools\shotlite.exe" tray"#);
}

#[test]
fn query_status_decides_whether_startup_is_on() {
    assert!(matches!(enabled_from_query_status(ERROR_SUCCESS), Ok(true)));
    assert!(matches!(enabled_from_query_status(ERROR_FILE_NOT_FOUND), Ok(false)));
    assert!(matches!(enabled_from_query_status(5), Err(StartupError::Registry(5))));
}

#[test]
fn removing_a_missing_entry_is_fine() {
    assert!(delete_outcome(ERROR_SUCCESS).is_ok());
    assert!(delete_outcome(ERROR_FILE_NOT_FOUND).is_ok());
    assert!(matches!(delete_outcome(5), Err(StartupError::Registry(5))));
    assert!(write_outcome(ERROR_SUCCESS).is_ok());
    assert!(matches!(write_outcome(ERROR_FILE_NOT_FOUND), Err(StartupError::Registry(2))));
}
