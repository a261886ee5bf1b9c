use serialport_sessions::config::{
    get_data_bits, get_flow_control, get_parity, get_stop_bits, resolve_config, DataBits,
    FlowControl, Parity, StopBits,
};
use serialport_sessions::session::SerialportState;

#[test]
fn data_bits_resolve_exactly() {
    assert_eq!(get_data_bits(Some(5)), DataBits::Five);
    assert_eq!(get_data_bits(Some(6)), DataBits::Six);
    assert_eq!(get_data_bits(Some(7)), DataBits::Seven);
    assert_eq!(get_data_bits(Some(8)), DataBits::Eight);
    assert_eq!(get_data_bits(Some(0)), DataBits::Eight);
    assert_eq!(get_data_bits(Some(9)), DataBits::Eight);
    assert_eq!(get_data_bits(None), DataBits::Eight);
}

#[test]
fn flow_control_resolves_exactly() {
    assert_eq!(
        get_flow_control(Some(String::from("Software"))),
        FlowControl::Software
    );
    assert_eq!(
        get_flow_control(Some(String::from("Hardware"))),
        FlowControl::Hardware
    );
    assert_eq!(
        get_flow_control(Some(String::from("software"))),
        FlowControl::NoFlowControl
    );
    assert_eq!(
        get_flow_control(Some(String::from(""))),
        FlowControl::NoFlowControl
    );
    assert_eq!(get_flow_control(None), FlowControl::NoFlowControl);
}

#[test]
fn parity_resolves_exactly() {
    assert_eq!(get_parity(Some(String::from("Odd"))), Parity::Odd);
    assert_eq!(get_parity(Some(String::from("Even"))), Parity::Even);
    assert_eq!(get_parity(Some(String::from("odd"))), Parity::NoParity);
    assert_eq!(get_parity(None), Parity::NoParity);
}

#[test]
fn stop_bits_resolve_exactly() {
    assert_eq!(get_stop_bits(Some(1)), StopBits::One);
    assert_eq!(get_stop_bits(Some(2)), StopBits::Two);
    assert_eq!(get_stop_bits(Some(3)), StopBits::Two);
    assert_eq!(get_stop_bits(None), StopBits::Two);
}

#[test]
fn out_of_range_data_bits_fall_back_to_eight_and_open_succeeds() {
    // the documented fallback: data_bits = Some(3) opens with 8 bits
    let config = resolve_config(9600, Some(3), None, None, None, None);
    assert_eq!(config.baud_rate, 9600);
    assert_eq!(config.data_bits, DataBits::Eight);
    let mut mgr: SerialportState<i32> = SerialportState::new();
    let path = String::from("COM-FALLBACK");
    assert!(mgr.open(path.clone(), 1).is_ok());
    assert!(mgr.is_open(&path));
}

#[test]
fn resolve_config_applies_every_default() {
    let config = resolve_config(115200, None, None, None, None, None);
    assert_eq!(config.baud_rate, 115200);
    assert_eq!(config.data_bits, DataBits::Eight);
    assert_eq!(config.flow_control, FlowControl::NoFlowControl);
    assert_eq!(config.parity, Parity::NoParity);
    assert_eq!(config.stop_bits, StopBits::Two);
    assert_eq!(config.timeout_ms, 200);
}

#[test]
fn resolve_config_keeps_explicit_values() {
    let config = resolve_config(
        19200,
        Some(7),
        Some(String::from("Hardware")),
        Some(String::from("Even")),
        Some(1),
        Some(500),
    );
    assert_eq!(config.baud_rate, 19200);
    assert_eq!(config.data_bits, DataBits::Seven);
    assert_eq!(config.flow_control, FlowControl::Hardware);
    assert_eq!(config.parity, Parity::Even);
    assert_eq!(config.stop_bits, StopBits::One);
    assert_eq!(config.timeout_ms, 500);
}
