//! Tests of the mock I2C hardware's protocol handling.

use rot_stack::i2c::{Controller, ResponseCode, I2cHardware};
use rot_stack::i2c_mock::MockI2cHardware;

#[test]
fn test_basic_mock_functionality() {
    let mut mock = MockI2cHardware::new();

    // Enable controller and add device
    mock.enable_controller(Controller::I2C0).unwrap();
    mock.add_device(Controller::I2C0, 0x50);

    // Test successful read
    let mut buf = [0u8; 4];
    let bytes_read = mock.write_read(Controller::I2C0, 0x50, &[], &mut buf).unwrap();

    assert_eq!(bytes_read, 4);
    assert_eq!(buf, [0x60, 0x61, 0x62, 0x63]); // 0x50 + 0x10 + index
}

#[test]
fn mock_test_error_injection() {
    let mut mock = MockI2cHardware::new();
    mock.enable_controller(Controller::I2C0).unwrap();
    mock.add_device(Controller::I2C0, 0x50);

    // Inject error
    mock.inject_error(ResponseCode::BusLocked);

    let mut buf = [0u8; 1];
    let result = mock.write_read(Controller::I2C0, 0x50, &[], &mut buf);

    assert_eq!(result, Err(ResponseCode::BusLocked));
}

#[test]
fn test_no_device_error() {
    let mut mock = MockI2cHardware::new();
    mock.enable_controller(Controller::I2C0).unwrap();
    // Don't add any devices

    let mut buf = [0u8; 1];
    let result = mock.write_read(Controller::I2C0, 0x50, &[], &mut buf);

    assert_eq!(result, Err(ResponseCode::NoDevice));
}

#[test]
fn mock_disabled_controller_refused() {
    let mut mock = MockI2cHardware::new();
    mock.add_device(Controller::I2C0, 0x50);
    let mut buf = [0u8; 1];
    let result = mock.write_read(Controller::I2C0, 0x50, &[], &mut buf);
    assert_eq!(result, Err(ResponseCode::BadController));
}

#[test]
fn mock_reserved_address_refused() {
    let mut mock = MockI2cHardware::new();
    mock.enable_controller(Controller::I2C0).unwrap();
    let mut buf = [0u8; 1];
    assert_eq!(
        mock.write_read(Controller::I2C0, 0x03, &[], &mut buf),
        Err(ResponseCode::ReservedAddress)
    );
    assert_eq!(
        mock.write_read(Controller::I2C0, 0x7C, &[], &mut buf),
        Err(ResponseCode::ReservedAddress)
    );
}

#[test]
fn mock_disable_controller_takes_effect() {
    let mut mock = MockI2cHardware::new();
    mock.enable_controller(Controller::I2C2).unwrap();
    mock.add_device(Controller::I2C2, 0x30);
    let mut buf = [0u8; 2];
    assert!(mock.write_read(Controller::I2C2, 0x30, &[], &mut buf).is_ok());
    mock.disable_controller(Controller::I2C2).unwrap();
    assert_eq!(
        mock.write_read(Controller::I2C2, 0x30, &[], &mut buf),
        Err(ResponseCode::BadController)
    );
}

#[test]
fn mock_reset_bus_clears_injected_error() {
    let mut mock = MockI2cHardware::new();
    mock.enable_controller(Controller::I2C0).unwrap();
    mock.add_device(Controller::I2C0, 0x50);
    mock.inject_error(ResponseCode::BusError);
    mock.reset_bus(Controller::I2C0).unwrap();
    let mut buf = [0u8; 1];
    assert_eq!(mock.write_read(Controller::I2C0, 0x50, &[], &mut buf), Ok(1));
}
