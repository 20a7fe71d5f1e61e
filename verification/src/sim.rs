//! The value, hog direction and pull of a line of a simulated bank, and the
//! numeric codes by which the simulator names them.

use vstd::prelude::*;
use crate::error::{Error, OperationType};

verus! {

/// The simulator's code for a failed read of a value.
pub const GPIOSIM_VALUE_ERROR: i32 = -1;

/// The simulator's code for an inactive line.
pub const GPIOSIM_VALUE_INACTIVE: i32 = 0;

/// The simulator's code for an active line.
pub const GPIOSIM_VALUE_ACTIVE: i32 = 1;

/// The simulator's code for a hog that reads the line.
pub const GPIOSIM_HOG_DIR_INPUT: u32 = 1;

/// The simulator's code for a hog that drives the line high.
pub const GPIOSIM_HOG_DIR_OUTPUT_HIGH: u32 = 2;

/// The simulator's code for a hog that drives the line low.
pub const GPIOSIM_HOG_DIR_OUTPUT_LOW: u32 = 3;

/// The simulator's code for a pull-up.
pub const GPIOSIM_PULL_UP: u32 = 1;

/// The simulator's code for a pull-down.
pub const GPIOSIM_PULL_DOWN: u32 = 2;

/// Value settings.
#[derive(Copy, Clone, Debug, PartialEq, Eq, Structural)]
pub enum Value {
    /// Active
    Active,
    /// Inactive
    InActive,
}

impl Value {
    /// What the code `val` stands for, where `os_error` is the OS error code
    /// that the thread held when the code was read.
    pub open spec fn decoded(val: i32, os_error: i32) -> Result<Value, Error> {
        if val == GPIOSIM_VALUE_INACTIVE {
            Ok(Value::InActive)
        } else if val == GPIOSIM_VALUE_ACTIVE {
            Ok(Value::Active)
        } else if val == GPIOSIM_VALUE_ERROR {
            Err(Error::OperationFailed(OperationType::SimBankGetVal, os_error))
        } else {
            Err(Error::InvalidEnumValue("Value", val))
        }
    }

    /// Reads a value from the code that the simulator answered with.
    ///
    /// The error code is the simulator saying that the read failed, and is
    /// reported with the thread's current OS error code; a code that is none
    /// of the three is reported as invalid, never taken for a value.
    pub fn new(val: i32) -> (r: Result<Value, Error>)
        ensures
            exists|os_error: i32| r == #[trigger] Self::decoded(val, os_error),
    {
        if val == GPIOSIM_VALUE_INACTIVE {
            Ok(Value::InActive)
        } else if val == GPIOSIM_VALUE_ACTIVE {
            Ok(Value::Active)
        } else if val == GPIOSIM_VALUE_ERROR {
            let e = Error::last_os_error(OperationType::SimBankGetVal);
            proof {
                assert(e == Self::decoded(val, e->OperationFailed_1)->Err_0);
            }
            Err(e)
        } else {
            let e = Error::InvalidEnumValue("Value", val);
            proof {
                assert(e == Self::decoded(val, 0)->Err_0);
            }
            Err(e)
        }
    }
}

/// Direction settings.
#[derive(Copy, Clone, Debug, PartialEq, Eq, Structural)]
pub enum Direction {
    /// Direction is input - for reading the value of an externally driven GPIO line.
    Input,
    /// Direction is output - for driving the GPIO line, value is high.
    OutputHigh,
    /// Direction is output - for driving the GPIO line, value is low.
    OutputLow,
}

impl Direction {
    /// The simulator's code for this direction.
    pub open spec fn code(self) -> u32 {
        match self {
            Direction::Input => GPIOSIM_HOG_DIR_INPUT,
            Direction::OutputHigh => GPIOSIM_HOG_DIR_OUTPUT_HIGH,
            Direction::OutputLow => GPIOSIM_HOG_DIR_OUTPUT_LOW,
        }
    }

    /// The simulator's code for this direction.
    pub fn val(self) -> (code: u32)
        ensures
            code == self.code(),
    {
        match self {
            Direction::Input => GPIOSIM_HOG_DIR_INPUT,
            Direction::OutputHigh => GPIOSIM_HOG_DIR_OUTPUT_HIGH,
            Direction::OutputLow => GPIOSIM_HOG_DIR_OUTPUT_LOW,
        }
    }
}

/// A hog's direction can be told from its code: two directions with the same
/// code are the same direction.
pub proof fn lemma_direction_codes_differ(a: Direction, b: Direction)
    ensures
        a.code() == b.code() ==> a == b,
{
}

/// Internal pull settings.
#[derive(Copy, Clone, Debug, PartialEq, Eq, Structural)]
pub enum Pull {
    /// The internal pull-up is enabled.
    Up,
    /// The internal pull-down is enabled.
    Down,
}

impl Pull {
    /// The simulator's code for this pull.
    pub open spec fn code(self) -> u32 {
        match self {
            Pull::Up => GPIOSIM_PULL_UP,
            Pull::Down => GPIOSIM_PULL_DOWN,
        }
    }

    /// The simulator's code for this pull.
    pub fn val(self) -> (code: u32)
        ensures
            code == self.code(),
    {
        match self {
            Pull::Up => GPIOSIM_PULL_UP,
            Pull::Down => GPIOSIM_PULL_DOWN,
        }
    }
}

/// A pull can be told from its code: two pulls with the same code are the
/// same pull.
pub proof fn lemma_pull_codes_differ(a: Pull, b: Pull)
    ensures
        a.code() == b.code() ==> a == b,
{
}

} // verus!
