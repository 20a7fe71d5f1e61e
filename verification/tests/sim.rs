use gpio_config::error::{Error, OperationType};
use gpio_config::sim::{
    Direction, Pull, Value, GPIOSIM_HOG_DIR_INPUT, GPIOSIM_HOG_DIR_OUTPUT_HIGH,
    GPIOSIM_HOG_DIR_OUTPUT_LOW, GPIOSIM_PULL_DOWN, GPIOSIM_PULL_UP, GPIOSIM_VALUE_ACTIVE,
    GPIOSIM_VALUE_ERROR, GPIOSIM_VALUE_INACTIVE,
};

#[test]
fn active_code_is_active() {
    assert_eq!(Value::new(GPIOSIM_VALUE_ACTIVE), Ok(Value::Active));
    assert_eq!(Value::new(1), Ok(Value::Active));
}

#[test]
fn inactive_code_is_inactive() {
    assert_eq!(Value::new(GPIOSIM_VALUE_INACTIVE), Ok(Value::InActive));
    assert_eq!(Value::new(0), Ok(Value::InActive));
}

#[test]
fn error_code_is_a_failed_read() {
    errno::set_errno(errno::Errno(5));
    assert_eq!(
        Value::new(GPIOSIM_VALUE_ERROR),
        Err(Error::OperationFailed(OperationType::SimBankGetVal, 5))
    );
    errno::set_errno(errno::Errno(19));
    assert_eq!(
        Value::new(-1),
        Err(Error::OperationFailed(OperationType::SimBankGetVal, 19))
    );
}

#[test]
fn unknown_codes_are_invalid_values() {
    assert_eq!(Value::new(2), Err(Error::InvalidEnumValue("Value", 2)));
    assert_eq!(Value::new(-2), Err(Error::InvalidEnumValue("Value", -2)));
    assert_eq!(
        Value::new(i32::MAX),
        Err(Error::InvalidEnumValue("Value", i32::MAX))
    );
    assert_eq!(
        Value::new(i32::MIN),
        Err(Error::InvalidEnumValue("Value", i32::MIN))
    );
}

#[test]
fn unknown_code_is_not_reported_as_a_failed_read() {
    errno::set_errno(errno::Errno(5));
    assert!(matches!(
        Value::new(3),
        Err(Error::InvalidEnumValue("Value", 3))
    ));
}

#[test]
fn direction_codes() {
    assert_eq!(Direction::Input.val(), GPIOSIM_HOG_DIR_INPUT);
    assert_eq!(Direction::OutputHigh.val(), GPIOSIM_HOG_DIR_OUTPUT_HIGH);
    assert_eq!(Direction::OutputLow.val(), GPIOSIM_HOG_DIR_OUTPUT_LOW);
    assert_eq!(Direction::Input.val(), 1);
    assert_eq!(Direction::OutputHigh.val(), 2);
    assert_eq!(Direction::OutputLow.val(), 3);
}

#[test]
fn pull_codes() {
    assert_eq!(Pull::Up.val(), GPIOSIM_PULL_UP);
    assert_eq!(Pull::Down.val(), GPIOSIM_PULL_DOWN);
    assert_eq!(Pull::Up.val(), 1);
    assert_eq!(Pull::Down.val(), 2);
}

#[test]
fn codes_of_different_variants_differ() {
    assert_ne!(Direction::Input.val(), Direction::OutputHigh.val());
    assert_ne!(Direction::Input.val(), Direction::OutputLow.val());
    assert_ne!(Direction::OutputHigh.val(), Direction::OutputLow.val());
    assert_ne!(Pull::Up.val(), Pull::Down.val());
}
