use gpio_config::line::{Bias, Direction, Edge, Settings, Value};

#[test]
fn new_settings_are_the_defaults() {
    let settings = Settings::new();
    assert_eq!(settings.direction(), Direction::AsIs);
    assert_eq!(settings.edge_detection(), None);
    assert_eq!(settings.bias(), None);
    assert!(!settings.active_low());
    assert_eq!(settings.debounce_period_us(), 0);
    assert_eq!(settings.output_value(), Value::InActive);
}

#[test]
fn each_setter_changes_its_own_attribute_only() {
    let mut settings = Settings::new();

    settings.set_direction(Direction::Output);
    let mut expected = Settings::new();
    expected.direction = Direction::Output;
    assert_eq!(settings, expected);

    settings.set_edge_detection(Some(Edge::Rising));
    expected.edge_detection = Some(Edge::Rising);
    assert_eq!(settings, expected);

    settings.set_bias(Some(Bias::Disabled));
    expected.bias = Some(Bias::Disabled);
    assert_eq!(settings, expected);

    settings.set_active_low(true);
    expected.active_low = true;
    assert_eq!(settings, expected);

    settings.set_debounce_period_us(u64::MAX);
    expected.debounce_period_us = u64::MAX;
    assert_eq!(settings, expected);

    settings.set_output_value(Value::Active);
    expected.output_value = Value::Active;
    assert_eq!(settings, expected);
}

#[test]
fn getters_read_what_was_set() {
    let mut settings = Settings::new();
    settings.set_direction(Direction::Input);
    settings.set_edge_detection(Some(Edge::Falling));
    settings.set_bias(Some(Bias::PullDown));
    settings.set_active_low(true);
    settings.set_debounce_period_us(125);
    settings.set_output_value(Value::Active);
    assert_eq!(settings.direction(), Direction::Input);
    assert_eq!(settings.edge_detection(), Some(Edge::Falling));
    assert_eq!(settings.bias(), Some(Bias::PullDown));
    assert!(settings.active_low());
    assert_eq!(settings.debounce_period_us(), 125);
    assert_eq!(settings.output_value(), Value::Active);
}

#[test]
fn an_attribute_can_be_set_back() {
    let mut settings = Settings::new();
    settings.set_edge_detection(Some(Edge::Both));
    settings.set_bias(Some(Bias::PullUp));
    settings.set_edge_detection(None);
    settings.set_bias(None);
    assert_eq!(settings, Settings::new());
}
