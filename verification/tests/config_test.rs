use zombies_weapon_tool::config::{
    accept_read, find_order_fault, is_valid_order, serialization_error, Config, ExecutionMode,
    Fault,
};
use zombies_weapon_tool::lang::Lang;

#[test]
fn default_config_is_valid() {
    assert!(Config::default().validate(Lang::En).is_ok());
}

#[test]
fn validate_rejects_zero_shoot_interval() {
    let mut c = Config::default();
    c.shoot_interval_ms = 0;
    assert!(c.validate(Lang::En).is_err());
    assert_eq!(
        c.validate(Lang::En).unwrap_err(),
        "shoot_interval cannot be 0; set a positive integer (ms)"
    );
    assert_eq!(
        c.validate(Lang::Zh).unwrap_err(),
        "shoot_interval 不能为 0，请设置一个正整数（单位 ms）"
    );
}

#[test]
fn validate_rejects_zero_switch_interval() {
    let mut c = Config::default();
    c.weapon_switch_interval_ms = 0;
    assert!(c.validate(Lang::En).is_err());
    assert_eq!(
        c.validate(Lang::En).unwrap_err(),
        "switch_interval cannot be 0; set a positive integer (ms)"
    );
}

#[test]
fn validate_rejects_empty_order() {
    let mut c = Config::default();
    c.execution_order = String::new();
    assert!(c.validate(Lang::En).is_err());
    assert_eq!(
        c.validate(Lang::En).unwrap_err(),
        "execution_order length must be 1~3, current: "
    );
}

#[test]
fn validate_rejects_order_too_long() {
    let mut c = Config::default();
    c.execution_order = "ABCA".into();
    assert!(c.validate(Lang::En).is_err());
    assert_eq!(
        c.validate(Lang::Zh).unwrap_err(),
        "execution_order 长度须在 1~3 之间，当前: ABCA"
    );
}

#[test]
fn validate_rejects_invalid_order_char() {
    let mut c = Config::default();
    c.execution_order = "AXB".into();
    let err = c.validate(Lang::En).unwrap_err();
    assert!(err.contains('X'));
    assert_eq!(err, "execution_order contains invalid char X; only A/B/C allowed");
}

#[test]
fn validate_rejects_duplicate_order_char() {
    let mut c = Config::default();
    c.execution_order = "AAB".into();
    let err = c.validate(Lang::En).unwrap_err();
    assert!(err.contains('A'));
    assert_eq!(err, "execution_order contains duplicate char A");
}

#[test]
fn validate_accepts_all_valid_orders() {
    for order in &["A", "B", "C", "AB", "AC", "BC", "ABC", "BAC", "CBA"] {
        let mut c = Config::default();
        c.execution_order = order.to_string();
        assert!(c.validate(Lang::En).is_ok(), "order {:?} should be valid", order);
    }
}

#[test]
fn the_intervals_come_before_the_order() {
    let mut c = Config::default();
    c.execution_order = "X".into();
    c.weapon_switch_interval_ms = 0;
    c.shoot_interval_ms = 0;
    assert!(c.validate(Lang::En).unwrap_err().starts_with("shoot_interval"));
    c.shoot_interval_ms = 1;
    assert!(c.validate(Lang::En).unwrap_err().starts_with("switch_interval"));
    c.weapon_switch_interval_ms = 1;
    assert!(c.validate(Lang::En).unwrap_err().starts_with("execution_order"));
}

#[test]
fn an_order_is_measured_in_bytes() {
    // One Chinese character takes three bytes, two of them take six.
    assert_eq!(find_order_fault("汉"), Some(Fault::OrderLetter(0xe6)));
    assert_eq!(find_order_fault("汉字"), Some(Fault::OrderLength));
    assert_eq!(find_order_fault("ABC"), None);
    assert_eq!(find_order_fault("CAC"), Some(Fault::OrderRepeat(b'C')));
    assert!(is_valid_order("CAB"));
    assert!(!is_valid_order("ABB"));
    assert!(!is_valid_order(""));
}

#[test]
fn the_default_values() {
    let c = Config::default();
    assert_eq!(c.weapon_slot1, "2");
    assert_eq!(c.weapon_slot2, "3");
    assert_eq!(c.weapon_slot3, "4");
    assert_eq!(c.execution_hotkey, "LALT");
    assert_eq!(c.router_hotkey, "RALT");
    assert_eq!(c.execution_order, "ABC");
    assert_eq!(c.execution_mode, ExecutionMode::Toggle);
    assert_eq!(c.execution_mode, ExecutionMode::default());
    assert!(!c.random_execution);
    assert_eq!(c.weapon_switch_interval_ms, 100);
    assert_eq!(c.weapon_switch_interval_offset_ms, 20);
    assert_eq!(c.shoot_interval_ms, 50);
    assert_eq!(c.shoot_interval_offset_ms, 10);
}

#[test]
fn only_valid_configurations_are_accepted() {
    assert_eq!(accept_read(Lang::En, Ok(Config::default())).unwrap().execution_order, "ABC");
    assert_eq!(accept_read(Lang::En, Err("no such file".to_string())).unwrap_err(), "no such file");
    let mut c = Config::default();
    c.execution_order = "D".into();
    assert_eq!(
        accept_read(Lang::En, Ok(c)).unwrap_err(),
        "execution_order contains invalid char D; only A/B/C allowed"
    );
    assert_eq!(serialization_error(Lang::En, "eof"), "Serialization failed: eof");
}
