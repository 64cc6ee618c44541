//! Tests of the raw-hardware adapter: error conversion, transaction
//! counting, configured responses and slave mode.

use rot_stack::i2c::{Controller, PortIndex, ResponseCode, SlaveConfig, I2cHardware};
use rot_stack::i2c_adapter::{MockI2cHardware, MockI2cError, OpenProtI2cAdapter};

#[test]
fn test_adapter_creation() {
    let mock_hardware = MockI2cHardware::new();
    let adapter = OpenProtI2cAdapter::new(Controller::I2C0, mock_hardware);
    assert_eq!(adapter.controller_id(), Controller::I2C0);
    assert_eq!(adapter.transaction_count(), 0);
}

#[test]
fn test_error_conversion() {
    // Test the From implementation
    assert_eq!(ResponseCode::from(MockI2cError::Bus), ResponseCode::BusError);
    assert_eq!(ResponseCode::from(MockI2cError::ArbitrationLoss), ResponseCode::BusLocked);
    assert_eq!(ResponseCode::from(MockI2cError::NoAcknowledge), ResponseCode::NoDevice);
    assert_eq!(ResponseCode::from(MockI2cError::Other), ResponseCode::BadDeviceState);
}

#[test]
fn test_device_configuration() {
    let mock_hardware = MockI2cHardware::new();
    let mut adapter = OpenProtI2cAdapter::new(Controller::I2C0, mock_hardware);

    let test_data = &[0x42, 0x43, 0x44];
    let result = adapter.configure_device_response(0x50, test_data);

    // Should succeed
    assert!(result.is_ok());

    // Test read operation would return the configured data
    let mut read_buffer = [0u8; 3];
    let read_result = adapter.write_read(Controller::I2C0, 0x50, &[], &mut read_buffer);

    // Should succeed and return configured data
    assert!(read_result.is_ok());
    assert_eq!(read_buffer, [0x42, 0x43, 0x44]);
    assert_eq!(adapter.transaction_count(), 1);
}

#[test]
fn openprot_adapter_test_error_injection() {
    let mock_hardware = MockI2cHardware::new();
    let mut adapter = OpenProtI2cAdapter::new(Controller::I2C0, mock_hardware);

    // Configure error injection
    let result = adapter.inject_error(0x50, MockI2cError::NoAcknowledge);
    assert!(result.is_ok());

    // Attempt to read from device should fail with injected error
    let mut read_buffer = [0u8; 1];
    let read_result = adapter.write_read(Controller::I2C0, 0x50, &[], &mut read_buffer);

    assert_eq!(read_result, Err(ResponseCode::NoDevice));
}

#[test]
fn test_slave_functionality() {
    let mock_hardware = MockI2cHardware::new();
    let mut adapter = OpenProtI2cAdapter::new(Controller::I2C0, mock_hardware);

    // Configure slave mode with a simple config
    let config = SlaveConfig::new(Controller::I2C0, PortIndex(0), 0x42).unwrap();
    let result = adapter.configure_slave_mode(Controller::I2C0, &config);
    assert!(result.is_ok());

    // Enable slave mode
    let result = adapter.enable_slave_receive(Controller::I2C0);
    assert!(result.is_ok());

    // Check slave status
    let status = adapter.get_slave_status(Controller::I2C0);
    assert!(status.is_ok());
    assert!(status.unwrap().enabled);

    // Disable slave mode
    let result = adapter.disable_slave_receive(Controller::I2C0);
    assert!(result.is_ok());
}

#[test]
fn openprot_adapter_test_transaction_counting() {
    let mock_hardware = MockI2cHardware::new();
    let mut adapter = OpenProtI2cAdapter::new(Controller::I2C0, mock_hardware);
    assert_eq!(adapter.transaction_count(), 0);

    // Configure a test device
    adapter.configure_device_response(0x50, &[0x42]).unwrap();

    // Perform operations and check count increases
    let mut buffer = [0u8; 1];

    adapter.write_read(Controller::I2C0, 0x50, &[], &mut buffer).unwrap();
    assert_eq!(adapter.transaction_count(), 1);

    adapter.write_read(Controller::I2C0, 0x50, &[0x43], &mut []).unwrap();
    assert_eq!(adapter.transaction_count(), 2);

    adapter.write_read(Controller::I2C0, 0x50, &[0x44], &mut buffer).unwrap();
    assert_eq!(adapter.transaction_count(), 3);
}

#[test]
fn test_bus_recovery() {
    let mock_hardware = MockI2cHardware::new();
    let mut adapter = OpenProtI2cAdapter::new(Controller::I2C0, mock_hardware);

    let result = adapter.reset_bus(Controller::I2C0);
    assert!(result.is_ok());
}

#[test]
fn adapter_block_read_parses_count() {
    let mock_hardware = MockI2cHardware::new();
    let mut adapter = OpenProtI2cAdapter::new(Controller::I2C0, mock_hardware);

    // A block answer: 3 data bytes follow the count byte.
    adapter
        .configure_device_response(0x21, &[3, 0xAA, 0xBB, 0xCC])
        .unwrap();
    let mut out = [0u8; 8];
    let n = adapter.write_read_block(Controller::I2C0, 0x21, &[0x01], &mut out).unwrap();
    assert_eq!(n, 3);
    assert_eq!(&out[..3], &[0xAA, 0xBB, 0xCC]);
}

#[test]
fn adapter_block_read_rejects_oversize_count() {
    let mock_hardware = MockI2cHardware::new();
    let mut adapter = OpenProtI2cAdapter::new(Controller::I2C0, mock_hardware);
    adapter.configure_device_response(0x21, &[33]).unwrap();
    let mut out = [0u8; 64];
    assert_eq!(
        adapter.write_read_block(Controller::I2C0, 0x21, &[0x01], &mut out),
        Err(ResponseCode::TooMuchData)
    );
    // an empty command is a bad argument
    assert_eq!(
        adapter.write_read_block(Controller::I2C0, 0x21, &[], &mut out),
        Err(ResponseCode::BadArg)
    );
}

#[test]
fn adapter_clear_all_devices_forgets_responses() {
    let mock_hardware = MockI2cHardware::new();
    let mut adapter = OpenProtI2cAdapter::new(Controller::I2C0, mock_hardware);
    adapter.configure_device_response(0x50, &[1]).unwrap();
    adapter.clear_all_devices();
    let mut buffer = [0u8; 1];
    assert_eq!(
        adapter.write_read(Controller::I2C0, 0x50, &[], &mut buffer),
        Err(ResponseCode::NoDevice)
    );
}
