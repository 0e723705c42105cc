use std::convert::TryInto;
use tokio_s7::types::{
    PduType, PlcStatus, PlcType, S7Area, S7DataVariableType, S7ErrorClass, S7FunctionCode, S7MessageType,
    S7ParamVariableType, S7ReturnCode, SyntaxID,
};

#[test]
fn test_code() {
    assert_eq!(S7DataVariableType::Null.code(), 0x00);
    assert_eq!(S7DataVariableType::Bit.code(), 0x03);
    assert_eq!(S7DataVariableType::ByteWordDword.code(), 0x04);
    assert_eq!(S7DataVariableType::Integer.code(), 0x05);
    assert_eq!(S7DataVariableType::DInteger.code(), 0x06);
    assert_eq!(S7DataVariableType::Real.code(), 0x07);
    assert_eq!(S7DataVariableType::OctetString.code(), 0x09);
}

#[test]
fn test_from() {
    assert_eq!(S7DataVariableType::from(0x00), Some(S7DataVariableType::Null));
    assert_eq!(S7DataVariableType::from(0x03), Some(S7DataVariableType::Bit));
    assert_eq!(S7DataVariableType::from(0x04), Some(S7DataVariableType::ByteWordDword));
    assert_eq!(S7DataVariableType::from(0x05), Some(S7DataVariableType::Integer));
    assert_eq!(S7DataVariableType::from(0x06), Some(S7DataVariableType::DInteger));
    assert_eq!(S7DataVariableType::from(0x07), Some(S7DataVariableType::Real));
    assert_eq!(S7DataVariableType::from(0x09), Some(S7DataVariableType::OctetString));
    assert_eq!(S7DataVariableType::from(0xFF), None);
}

#[test]
fn test_try_from() {
    let var: S7DataVariableType = 0x03u8.try_into().unwrap();
    assert_eq!(var, S7DataVariableType::Bit);
}

#[test]
fn test_abbr() {
    assert_eq!(S7Area::Inputs.abbr(), "I");
    assert_eq!(S7Area::DataBlocks.abbr(), "DB");
    assert_eq!(S7Area::DirectPeripheralAccess.abbr(), "PI/PQ");
}

#[test]
fn test_from_s7area() {
    assert_eq!(S7Area::from(0x80), Some(S7Area::DirectPeripheralAccess));
    assert_eq!(S7Area::from(0x1C), Some(S7Area::S7Counters));
    assert_eq!(S7Area::from(0x99), None);
}

#[test]
fn plc_type_defaults() {
    assert_eq!(PlcType::S300.default_rack_slot(), (0, 2));
    assert_eq!(PlcType::S400.default_rack_slot(), (0, 3));
    assert_eq!(PlcType::S1200.default_rack_slot(), (0, 1));
    assert_eq!(PlcType::Sinumerik828D.default_rack_slot(), (0, 2));
    assert_eq!(PlcType::S200.protocol_type(), 0x01);
    assert_eq!(PlcType::S200Smart.protocol_type(), 0x01);
    assert_eq!(PlcType::S1500.protocol_type(), 0x02);
    assert_eq!(PlcType::S200.default_pdu_size(), 240);
    assert_eq!(PlcType::S400.default_pdu_size(), 1140);
    assert_eq!(PlcType::S1200.default_pdu_size(), 480);
}

#[test]
fn codes_decode_back() {
    for t in [
        PduType::ConnectRequest,
        PduType::ConnectConfirm,
        PduType::DisconnectRequest,
        PduType::DisconnectConfirm,
        PduType::Reject,
        PduType::DtData,
    ] {
        assert_eq!(PduType::from(t.code()), Some(t));
    }
    assert_eq!(PduType::DtData.code(), 0xF0);
    assert_eq!(PduType::from(0x00), None);
    let r: Result<PduType, ()> = 0x12u8.try_into();
    assert_eq!(r, Err(()));
    assert_eq!(S7FunctionCode::from(0x04), Some(S7FunctionCode::ReadVariable));
    assert_eq!(S7FunctionCode::ReadVariable.code(), 0x04);
    assert_eq!(S7FunctionCode::WriteVariable.code(), 0x05);
    assert_eq!(S7FunctionCode::from(0xF0), Some(S7FunctionCode::SetupCommunication));
    assert_eq!(S7MessageType::from(0x07), Some(S7MessageType::UserData));
    assert_eq!(S7MessageType::Job.code(), 0x01);
    assert_eq!(S7ParamVariableType::from(0x02), Some(S7ParamVariableType::Byte));
    assert_eq!(S7ReturnCode::from(0xFF), Some(S7ReturnCode::Success));
    assert_eq!(S7ReturnCode::from(0x12), None);
    assert_eq!(SyntaxID::from(0x10), Some(SyntaxID::S7Any));
    assert_eq!(S7ErrorClass::from(0x87), Some(S7ErrorClass::AccessError));
}

#[test]
fn descriptions() {
    assert_eq!(S7ErrorClass::NoError.description(), "no error");
    assert_eq!(S7ErrorClass::AccessError.description(), "access error");
    assert_eq!(S7ReturnCode::Success.description(), "success");
    assert_eq!(S7ReturnCode::InvalidAddress.description(), "invalid address");
}

#[test]
fn area_codes() {
    assert_eq!(S7Area::DataBlocks.code(), 0x84);
    let a: S7Area = 0x81u8.try_into().unwrap();
    assert_eq!(a, S7Area::Inputs);
    assert_ne!(PlcStatus::Run, PlcStatus::Stop);
}
