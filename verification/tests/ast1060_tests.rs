//! Tests of the AST1060 adapter's bookkeeping.

use rot_stack::ast1060::{Ast1060Hardware, AspeedI2cError, ast1060_controller_index, map_i2c_error, block_read_count};
use rot_stack::i2c::{Controller, ResponseCode};

#[test]
fn test_ast1060_hardware_creation() {
    // For now, just test that the structure compiles correctly
    assert_eq!(core::mem::size_of::<Ast1060Hardware>() > 0, true);
}

#[test]
fn ast1060_hardware_test_transaction_counting() {
    // Test that transaction counting logic compiles
    // Real testing would require hardware or advanced mocking
}

#[test]
fn test_error_handling() {
    // Test error conversion logic
    // This ensures the error handling infrastructure is sound
}

#[test]
fn ast1060_new_validates_controller() {
    let hw = Ast1060Hardware::new(3).unwrap();
    assert_eq!(hw.controller_id(), 3);
    assert_eq!(hw.transaction_count(), 0);
    assert_eq!(hw.last_error(), None);
    assert_eq!(
        Ast1060Hardware::new(8),
        Err(AspeedI2cError::InvalidController)
    );
}

#[test]
fn ast1060_record_tracks_outcomes() {
    let mut hw = Ast1060Hardware::new(0).unwrap();
    assert_eq!(hw.record(Ok(())), Ok(()));
    assert_eq!(hw.transaction_count(), 1);
    assert_eq!(hw.last_error(), None);
    assert_eq!(hw.record(Err(AspeedI2cError::NoAck)), Err(AspeedI2cError::NoAck));
    assert_eq!(hw.transaction_count(), 2);
    assert_eq!(hw.last_error(), Some(AspeedI2cError::NoAck));
    assert_eq!(hw.record(Ok(())), Ok(()));
    assert_eq!(hw.last_error(), None);
}

#[test]
fn ast1060_controller_index_mapping() {
    assert_eq!(ast1060_controller_index(Controller::I2C0), Ok(0));
    assert_eq!(ast1060_controller_index(Controller::I2C7), Ok(7));
    assert_eq!(
        ast1060_controller_index(Controller::Mock),
        Err(ResponseCode::BadController)
    );
}

#[test]
fn ast1060_error_mapping_and_block_count() {
    assert_eq!(map_i2c_error(AspeedI2cError::Timeout), ResponseCode::BusError);
    assert_eq!(map_i2c_error(AspeedI2cError::NoAck), ResponseCode::BusError);
    assert_eq!(block_read_count(3, 16), 3);
    assert_eq!(block_read_count(40, 16), 15);
    assert_eq!(block_read_count(3, 0), 0);
}
