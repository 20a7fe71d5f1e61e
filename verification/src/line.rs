//! The settings of one line.

use vstd::prelude::*;

verus! {

/// The index of a line on its chip.
pub type Offset = u32;

/// Direction settings.
#[derive(Copy, Clone, Debug, PartialEq, Eq, Structural)]
pub enum Direction {
    /// Request the line, but don't change its direction.
    AsIs,
    /// Direction is input - for reading the value of an externally driven GPIO line.
    Input,
    /// Direction is output - for driving the GPIO line.
    Output,
}

/// Internal bias settings.
#[derive(Copy, Clone, Debug, PartialEq, Eq, Structural)]
pub enum Bias {
    /// The internal bias is disabled.
    Disabled,
    /// The internal pull-up bias is enabled.
    PullUp,
    /// The internal pull-down bias is enabled.
    PullDown,
}

/// Edge detection settings.
#[derive(Copy, Clone, Debug, PartialEq, Eq, Structural)]
pub enum Edge {
    /// Line detects rising edge events.
    Rising,
    /// Line detects falling edge events.
    Falling,
    /// Line detects both rising and falling edge events.
    Both,
}

/// The logical level of a line.
#[derive(Copy, Clone, Debug, PartialEq, Eq, Structural)]
pub enum Value {
    /// Inactive
    InActive,
    /// Active
    Active,
}

/// The configuration of one line.
///
/// The fields are plain values; a `Settings` is copied into each
/// configuration entry that it is assigned to, so changing it afterwards
/// leaves those entries as they were.
#[derive(Copy, Clone, Debug, PartialEq, Eq)]
pub struct Settings {
    /// Whether the line is read or driven.
    pub direction: Direction,
    /// The edges that raise an event, if any.
    pub edge_detection: Option<Edge>,
    /// The internal bias, or `None` to leave it as it is.
    pub bias: Option<Bias>,
    /// Whether the line is active when its physical level is low.
    pub active_low: bool,
    /// The debounce period in microseconds; zero switches debouncing off.
    pub debounce_period_us: u64,
    /// The level that the line is driven to when it is an output.
    pub output_value: Value,
}

impl Settings {
    /// The settings that change nothing: direction as it is, no edge
    /// detection, bias as it is, active high, no debouncing, inactive output.
    pub open spec fn defaults() -> Settings {
        Settings {
            direction: Direction::AsIs,
            edge_detection: None,
            bias: None,
            active_low: false,
            debounce_period_us: 0,
            output_value: Value::InActive,
        }
    }

    /// Creates settings with every attribute at its default.
    pub fn new() -> (s: Settings)
        ensures
            s == Settings::defaults(),
    {
        Settings {
            direction: Direction::AsIs,
            edge_detection: None,
            bias: None,
            active_low: false,
            debounce_period_us: 0,
            output_value: Value::InActive,
        }
    }

    /// Sets the direction and leaves the other attributes alone.
    pub fn set_direction(&mut self, direction: Direction)
        ensures
            *final(self) == (Settings { direction, ..*old(self) }),
    {
        self.direction = direction;
    }

    /// The direction.
    pub fn direction(&self) -> (direction: Direction)
        ensures
            direction == self.direction,
    {
        self.direction
    }

    /// Sets the edge detection and leaves the other attributes alone.
    pub fn set_edge_detection(&mut self, edge_detection: Option<Edge>)
        ensures
            *final(self) == (Settings { edge_detection, ..*old(self) }),
    {
        self.edge_detection = edge_detection;
    }

    /// The edge detection.
    pub fn edge_detection(&self) -> (edge_detection: Option<Edge>)
        ensures
            edge_detection == self.edge_detection,
    {
        self.edge_detection
    }

    /// Sets the bias and leaves the other attributes alone.
    pub fn set_bias(&mut self, bias: Option<Bias>)
        ensures
            *final(self) == (Settings { bias, ..*old(self) }),
    {
        self.bias = bias;
    }

    /// The bias.
    pub fn bias(&self) -> (bias: Option<Bias>)
        ensures
            bias == self.bias,
    {
        self.bias
    }

    /// Sets the polarity and leaves the other attributes alone.
    pub fn set_active_low(&mut self, active_low: bool)
        ensures
            *final(self) == (Settings { active_low, ..*old(self) }),
    {
        self.active_low = active_low;
    }

    /// Whether the line is active when its physical level is low.
    pub fn active_low(&self) -> (active_low: bool)
        ensures
            active_low == self.active_low,
    {
        self.active_low
    }

    /// Sets the debounce period, in microseconds, and leaves the other
    /// attributes alone.
    pub fn set_debounce_period_us(&mut self, debounce_period_us: u64)
        ensures
            *final(self) == (Settings { debounce_period_us, ..*old(self) }),
    {
        self.debounce_period_us = debounce_period_us;
    }

    /// The debounce period in microseconds.
    pub fn debounce_period_us(&self) -> (debounce_period_us: u64)
        ensures
            debounce_period_us == self.debounce_period_us,
    {
        self.debounce_period_us
    }

    /// Sets the output value and leaves the other attributes alone.
    pub fn set_output_value(&mut self, output_value: Value)
        ensures
            *final(self) == (Settings { output_value, ..*old(self) }),
    {
        self.output_value = output_value;
    }

    /// The output value.
    pub fn output_value(&self) -> (output_value: Value)
        ensures
            output_value == self.output_value,
    {
        self.output_value
    }
}

} // verus!
