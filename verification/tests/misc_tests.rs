//! Tests of the I2C server, the controller manager, and the small data
//! models: UART decoding, HMAC sizes, SPDM placeholder handling.

use rot_stack::i2c::{Controller, PortIndex, Mux, Segment, ResponseCode, Op, ReservedAddress,
    I2cHardware};
use rot_stack::i2c_mock::MockI2cHardware;
use rot_stack::i2c_manager::I2cControllerManager;
use rot_stack::i2c_server::{I2cDevice, initialize_server};
use rot_stack::uart::{InterruptDecoding, Rate, received_len};
use rot_stack::hmac::HmacAlgorithm;
use rot_stack::spdm::process_spdm_request;
use rot_stack::pca9545::Pca9545;
use rot_stack::Eid;

#[test]
fn i2c_server_reads_demo_device() {
    let mut server = initialize_server();
    let device = I2cDevice {
        controller: Controller::I2C0,
        port: PortIndex(0),
        address: 0x50,
        segment: None,
    };
    let mut buf = [0u8; 2];
    let n = server.write_read(device, &[], &mut buf).unwrap();
    assert_eq!(n, 2);
    assert_eq!(buf, [0x60, 0x61]);
}

#[test]
fn i2c_server_rejects_reserved_upper_addresses() {
    let mut server = initialize_server();
    let device = I2cDevice {
        controller: Controller::I2C0,
        port: PortIndex(0),
        address: 0x80,
        segment: None,
    };
    let mut buf = [0u8; 1];
    assert_eq!(
        server.write_read(device, &[], &mut buf),
        Err(ResponseCode::ReservedAddress)
    );
}

#[test]
fn i2c_server_switches_mux_segments() {
    let mut server = initialize_server();
    let device = I2cDevice {
        controller: Controller::I2C0,
        port: PortIndex(1),
        address: 0x50,
        segment: Some((Mux::M1, Segment::S2)),
    };
    let mut buf = [0u8; 1];
    assert!(server.write_read(device, &[], &mut buf).is_ok());
    // switching to another segment on the same bus also works
    let device2 = I2cDevice {
        segment: Some((Mux::M1, Segment::S3)),
        ..device
    };
    assert!(server.write_read(device2, &[], &mut buf).is_ok());
}

#[test]
fn manager_routes_and_guards() {
    let mut manager: I2cControllerManager<MockI2cHardware> = I2cControllerManager::new();
    let mut instance = MockI2cHardware::new();
    instance.enable_controller(Controller::I2C0).unwrap();
    instance.add_device(Controller::I2C0, 0x50);

    manager.add_controller(Controller::I2C0, instance).unwrap();
    // a second instance for the same controller is refused
    assert_eq!(
        manager.add_controller(Controller::I2C0, MockI2cHardware::new()),
        Err(())
    );
    // the mock pseudo-controller has no slot
    assert_eq!(
        manager.add_controller(Controller::Mock, MockI2cHardware::new()),
        Err(())
    );

    let mut buf = [0u8; 1];
    assert_eq!(
        manager.handle_write_read(Controller::I2C0, 0x50, &[], &mut buf),
        Ok(1)
    );
    assert_eq!(
        manager.handle_write_read(Controller::I2C1, 0x50, &[], &mut buf),
        Err(ResponseCode::BadController)
    );
    assert_eq!(
        manager.handle_enable_slave_receive(Controller::I2C0),
        Ok(())
    );
    assert_eq!(
        manager.handle_enable_slave_receive(Controller::I2C3),
        Err(ResponseCode::BadController)
    );
}

#[test]
fn op_codes_roundtrip() {
    assert_eq!(Op::WriteRead.code(), 1);
    assert_eq!(Op::WriteReadBlock.code(), 2);
    assert_eq!(Op::from_code(1), Some(Op::WriteRead));
    assert_eq!(Op::from_code(2), Some(Op::WriteReadBlock));
    assert_eq!(Op::from_code(3), None);
}

#[test]
fn reserved_addresses_cover_both_ranges() {
    assert_eq!(ReservedAddress::from_u8(0), Some(ReservedAddress::GeneralCall));
    assert_eq!(ReservedAddress::from_u8(7), Some(ReservedAddress::HighSpeedReserved11));
    assert_eq!(ReservedAddress::from_u8(124), Some(ReservedAddress::TenBit00));
    assert_eq!(ReservedAddress::from_u8(127), Some(ReservedAddress::TenBit11));
    assert_eq!(ReservedAddress::from_u8(8), None);
    assert_eq!(ReservedAddress::from_u8(0x50), None);
}

#[test]
fn uart_interrupt_decoding() {
    assert_eq!(InterruptDecoding::from_bits(2), InterruptDecoding::RxDataAvailable);
    assert_eq!(InterruptDecoding::from_bits(6), InterruptDecoding::CharacterTimeout);
    assert_eq!(InterruptDecoding::from_bits(4), InterruptDecoding::Unknown);
    assert_eq!(InterruptDecoding::from_bits(0x0A), InterruptDecoding::RxDataAvailable);
    assert!(InterruptDecoding::RxDataAvailable.wants_rx());
    assert!(InterruptDecoding::CharacterTimeout.wants_rx());
    assert!(!InterruptDecoding::TxEmpty.wants_rx());
}

#[test]
fn uart_divisors() {
    assert_eq!(Rate::Baud9600.divisor(), (0, 12));
    assert_eq!(Rate::Baud19200.divisor(), (0, 6));
    assert_eq!(Rate::MBaud1_5.divisor(), (0, 1));
}

#[test]
fn hmac_output_sizes() {
    assert_eq!(HmacAlgorithm::Sha256.output_size(), 32);
    assert_eq!(HmacAlgorithm::Sha384.output_size(), 48);
    assert_eq!(HmacAlgorithm::Sha512.output_size(), 64);
    assert!(HmacAlgorithm::Sha256.key_length_ok(128));
    assert!(!HmacAlgorithm::Sha256.key_length_ok(129));
}

#[test]
fn spdm_placeholder_error_response() {
    let response = process_spdm_request(b"\x10\x84");
    assert_eq!(response, vec![0x10, 0x7F, 0x01, 0x00]);
}

#[test]
fn eid_assignability() {
    assert!(Eid(42).is_assignable());
    assert!(!Eid(0).is_assignable());
    assert!(!Eid(0xFF).is_assignable());
}

#[test]
fn received_len_stops_at_first_zero() {
    assert_eq!(received_len(b"hello\0world"), 5);
    assert_eq!(received_len(b"hello"), 5);
    assert_eq!(received_len(b"\0"), 0);
    assert_eq!(received_len(b""), 0);
}

#[test]
fn pca9545_control_bytes() {
    assert_eq!(Pca9545::control_byte(None), Ok(0));
    assert_eq!(Pca9545::control_byte(Some(Segment::S1)), Ok(1));
    assert_eq!(Pca9545::control_byte(Some(Segment::S2)), Ok(2));
    assert_eq!(Pca9545::control_byte(Some(Segment::S3)), Ok(4));
    assert_eq!(Pca9545::control_byte(Some(Segment::S4)), Ok(8));
    assert_eq!(
        Pca9545::control_byte(Some(Segment::S5)),
        Err(ResponseCode::SegmentNotFound)
    );
}

#[test]
fn i2c_server_refuses_33rd_muxed_bus() {
    let mut server = initialize_server();
    let mut buf = [0u8; 1];
    // fill the mux tracking table: one (controller, port) pair per entry
    for port in 0..32u8 {
        let device = I2cDevice {
            controller: Controller::I2C0,
            port: PortIndex(port),
            address: 0x50,
            segment: Some((Mux::M1, Segment::S1)),
        };
        assert!(server.write_read(device, &[], &mut buf).is_ok());
    }
    // a new bus no longer fits; an already-tracked one still works
    let overflow = I2cDevice {
        controller: Controller::I2C0,
        port: PortIndex(32),
        address: 0x50,
        segment: Some((Mux::M1, Segment::S1)),
    };
    assert_eq!(
        server.write_read(overflow, &[], &mut buf),
        Err(ResponseCode::BadArg)
    );
    let known = I2cDevice {
        controller: Controller::I2C0,
        port: PortIndex(7),
        address: 0x50,
        segment: Some((Mux::M1, Segment::S2)),
    };
    assert!(server.write_read(known, &[], &mut buf).is_ok());
}
