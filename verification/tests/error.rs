use gpio_config::error::{check_handle, check_status, Error, OperationType, STATUS_FAILED};

#[test]
fn failed_status_is_the_failure_of_the_operation() {
    errno::set_errno(errno::Errno(12));
    assert_eq!(
        check_status(OperationType::LineConfigAddSettings, STATUS_FAILED),
        Err(Error::OperationFailed(
            OperationType::LineConfigAddSettings,
            12
        ))
    );
    errno::set_errno(errno::Errno(7));
    assert_eq!(
        check_status(OperationType::LineConfigGetOffsets, -1),
        Err(Error::OperationFailed(
            OperationType::LineConfigGetOffsets,
            7
        ))
    );
}

#[test]
fn every_other_status_is_success() {
    errno::set_errno(errno::Errno(12));
    assert_eq!(check_status(OperationType::LineConfigAddSettings, 0), Ok(()));
    assert_eq!(check_status(OperationType::LineConfigAddSettings, 1), Ok(()));
    assert_eq!(check_status(OperationType::LineConfigAddSettings, -2), Ok(()));
    assert_eq!(
        check_status(OperationType::LineConfigGetOffsets, i32::MAX),
        Ok(())
    );
    assert_eq!(
        check_status(OperationType::LineConfigGetOffsets, i32::MIN),
        Ok(())
    );
}

#[test]
fn last_os_error_names_the_operation_and_the_code() {
    errno::set_errno(errno::Errno(16));
    assert_eq!(
        Error::last_os_error(OperationType::ConfigNew),
        Error::OperationFailed(OperationType::ConfigNew, 16)
    );
    errno::set_errno(errno::Errno(0));
    assert_eq!(
        Error::last_os_error(OperationType::SimBankGetVal),
        Error::OperationFailed(OperationType::SimBankGetVal, 0)
    );
}

#[test]
fn null_handle_is_the_failure_of_the_operation() {
    errno::set_errno(errno::Errno(12));
    assert_eq!(
        check_handle(OperationType::ConfigNew, true),
        Err(Error::OperationFailed(OperationType::ConfigNew, 12))
    );
    errno::set_errno(errno::Errno(2));
    assert_eq!(
        check_handle(OperationType::LineConfigGetSettings, true),
        Err(Error::OperationFailed(
            OperationType::LineConfigGetSettings,
            2
        ))
    );
}

#[test]
fn handle_that_is_not_null_is_success() {
    errno::set_errno(errno::Errno(12));
    assert_eq!(check_handle(OperationType::ConfigNew, false), Ok(()));
    assert_eq!(
        check_handle(OperationType::LineConfigGetSettings, false),
        Ok(())
    );
}
