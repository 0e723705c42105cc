use tokio_s7::bytes_to_hex;
use tokio_s7::cotp::{Cotp, CotpConnection, CotpData};
use tokio_s7::datum::{Datum, ReadWriteDatum, SzlDaum};
use tokio_s7::header::S7Header;
use tokio_s7::item::{DataItem, RequestItem, ReturnItem, S7ReturnItem};
use tokio_s7::packet::{S7Data, S7DataCodec};
use tokio_s7::paramter::{S7Parameter, SetupComParameter};
use tokio_s7::tpkt::TPKT;
use tokio_s7::types::{
    PduType, S7Area, S7DataVariableType, S7ErrorClass, S7FunctionCode, S7MessageType, S7ParamVariableType,
    S7ReturnCode,
};
use tokio_util::bytes::BytesMut;

fn cr_frame() -> Vec<u8> {
    vec![
        0x03, 0x00, 0x00, 0x16, 0x11, 0xE0, 0x00, 0x00, 0x00, 0x01, 0x00, 0xC0, 0x01, 0x0A, 0xC1, 0x02, 0x01,
        0x00, 0xC2, 0x02, 0x01, 0x01,
    ]
}

#[test]
fn tpkt_bytes_roundtrip() {
    let t = TPKT { version: 3, reserved: 0, length: 0x1234 };
    let b = t.to_be_bytes();
    assert_eq!(b, vec![0x03, 0x00, 0x12, 0x34]);
    assert_eq!(t.byte_len(), 4);
    assert_eq!(TPKT::from_be_bytes(&b).unwrap(), t);
    assert!(TPKT::from_be_bytes(&[0x03, 0x00]).is_err());
}

#[test]
fn cr_connection_frame() {
    let f = S7Data::create_cr_connection(0x0100, 0x0101);
    assert_eq!(f.to_be_bytes(), cr_frame());
    assert_eq!(f.byte_len(), 22);
    assert_eq!(f.tpkt.length, 22);
}

#[test]
fn cr_disconnection_frame() {
    let f = S7Data::create_cr_disconnection(0x0100, 0x0101);
    let mut expected = cr_frame();
    expected[5] = 0x80;
    assert_eq!(f.to_be_bytes(), expected);
}

#[test]
fn cotp_connection_roundtrip() {
    let c = Cotp::CotpConnection(CotpConnection::create_cr_connection(0x4D57, 0x4D57));
    let b = c.to_be_bytes();
    assert_eq!(b.len(), 18);
    assert_eq!(c.byte_len(), 18);
    assert_eq!(c.pdu_type(), PduType::ConnectRequest);
    assert_eq!(Cotp::from_be_bytes(&b).unwrap(), Some(c));
}

#[test]
fn cotp_data_bytes() {
    let c = Cotp::CotpData(CotpData::default());
    assert_eq!(c.to_be_bytes(), vec![0x02, 0xF0, 0x80]);
    assert_eq!(Cotp::from_be_bytes(&[0x02, 0xF0, 0x80]).unwrap(), Some(c));
    assert_eq!(Cotp::from_be_bytes(&[]).unwrap(), None);
    assert!(Cotp::from_be_bytes(&[0x02, 0x12, 0x80]).is_err());
}

#[test]
fn setup_comm_frame() {
    let f = S7Data::create_setup_comm(480);
    let expected = vec![
        0x03, 0x00, 0x00, 0x19, 0x02, 0xF0, 0x80, 0x32, 0x01, 0x00, 0x00, 0x00, 0x00, 0x00, 0x08, 0x00, 0x00,
        0xF0, 0x00, 0x00, 0x01, 0x00, 0x01, 0x01, 0xE0,
    ];
    assert_eq!(f.to_be_bytes(), expected);
    assert!(S7Data::is_readable(&expected));
    let back = S7Data::from_be_bytes(&expected).unwrap().unwrap();
    assert_eq!(back.to_be_bytes(), expected);
    match back.parameter {
        Some(S7Parameter::SetupParameter(p)) => {
            assert_eq!(p.pdu_length, 480);
            assert_eq!(p.max_amq_caller, 1);
            assert_eq!(p.max_amq_callee, 1);
        },
        _ => panic!("setup parameter expected"),
    }
}

#[test]
fn setup_parameter_default_and_new() {
    let d = SetupComParameter::default();
    assert_eq!(d.pdu_length, 960);
    assert_eq!(d.function_code, S7FunctionCode::SetupCommunication);
    let n = SetupComParameter::new(240);
    assert_eq!(n.pdu_length, 240);
}

#[test]
fn request_item_parse_byte() {
    let it = RequestItem::parse_byte("DB1.DBW20", 2).unwrap();
    assert_eq!(it.area, S7Area::DataBlocks);
    assert_eq!(it.db_number, 1);
    assert_eq!(it.byte_address, 20);
    assert_eq!(it.bit_address, 0);
    assert_eq!(it.count, 2);
    assert_eq!(it.variable_type, S7ParamVariableType::Byte);
    assert_eq!(
        it.to_be_bytes(),
        vec![0x12, 0x0A, 0x10, 0x02, 0x00, 0x02, 0x00, 0x01, 0x84, 0x00, 0x00, 0xA0]
    );
}

#[test]
fn request_item_parse_bit() {
    let it = RequestItem::parse_bit("db2.x32.2").unwrap();
    assert_eq!(it.db_number, 2);
    assert_eq!(it.byte_address, 32);
    assert_eq!(it.bit_address, 2);
    assert_eq!(it.variable_type, S7ParamVariableType::Bit);
    assert_eq!(it.to_be_bytes()[9..12], [0x00, 0x01, 0x02]);
    let m = RequestItem::parse_bit("M10.3").unwrap();
    assert_eq!(m.area, S7Area::Flags);
    assert_eq!(m.db_number, 0);
    assert_eq!(m.byte_address, 10);
    assert_eq!(m.bit_address, 3);
    let v = RequestItem::parse_byte("VB100", 1).unwrap();
    assert_eq!(v.area, S7Area::DataBlocks);
    assert_eq!(v.db_number, 1);
    assert_eq!(v.byte_address, 100);
}

fn parse_message(r: Result<RequestItem, tokio_s7::error::S7Error>) -> String {
    match r {
        Err(tokio_s7::error::S7Error::Error(m)) => m,
        other => panic!("message error expected, got {:?}", other),
    }
}

#[test]
fn request_item_parse_errors() {
    assert_eq!(parse_message(RequestItem::parse_byte("", 1)), "address is null or empty");
    assert_eq!(parse_message(RequestItem::parse_byte("DB1.DBW20", 0)), "count must be positive");
    assert_eq!(parse_message(RequestItem::parse_byte("x1.0", 1)), "unknown area prefix: 'X'");
    assert_eq!(parse_message(RequestItem::parse_byte(".5", 1)), "empty first part");
    assert_eq!(parse_message(RequestItem::parse_bit("M1.9")), "bit index must be in range 0-7");
    assert_eq!(parse_message(RequestItem::parse_byte("DB70000.DBB1", 1)), "number 70000 out of range");
    assert_eq!(parse_message(RequestItem::parse_byte("DBX.DBB1", 1)), "no digits found in 'DBX'");
    assert_eq!(parse_message(RequestItem::parse_bit("DB1.DBX2.Y")), "no digits found in 'Y'");
    assert_eq!(
        parse_message(RequestItem::parse_byte("DB1.DBB99999999999", 1)),
        "parse number error: number too large to fit in target type"
    );
}

#[test]
fn request_item_bytes_roundtrip() {
    let it = RequestItem::parse_bit("DB3.DBX7.5").unwrap();
    let b = it.to_be_bytes();
    assert_eq!(RequestItem::from_be_bytes(&b).unwrap(), it);
    let mut shifted = vec![0xAA, 0xBB];
    shifted.extend_from_slice(&b);
    assert_eq!(RequestItem::from_be_bytes_offset(&shifted, 2).unwrap(), it);
    assert!(RequestItem::from_be_bytes(&b[..11]).is_err());
    let t = RequestItem::parse_byte("T5", 1).unwrap();
    assert_eq!(t.area, S7Area::S7Timers);
    let tb = t.to_be_bytes();
    assert_eq!(tb[9..12], [0x00, 0x00, 0x14]);
    assert_eq!(RequestItem::from_be_bytes(&tb).unwrap(), t);
}

#[test]
fn data_item_bytes() {
    let d = DataItem::create_req_bytes(vec![0x01, 0x02]).unwrap();
    assert_eq!(d.count, 2);
    assert_eq!(d.data_variable_type, S7DataVariableType::ByteWordDword);
    assert_eq!(d.return_code, S7ReturnCode::Reserved);
    let b = d.to_be_bytes();
    assert_eq!(b, vec![0x00, 0x04, 0x00, 0x10, 0x01, 0x02]);
    assert_eq!(d.byte_len(), 6);
    assert_eq!(DataItem::from_be_bytes(&b).unwrap(), d);
    assert!(DataItem::create_req_bytes(vec![]).is_err());
    let t = DataItem::create_req_bool(true).unwrap();
    assert_eq!(t.to_be_bytes(), vec![0x00, 0x03, 0x00, 0x01, 0x01]);
    let f = DataItem::create_req_bool(false).unwrap();
    assert_eq!(f.data, vec![0x00]);
    assert!(DataItem::from_be_bytes(&[0xFF, 0x04, 0x00, 0x20, 0x01]).is_err());
    assert!(DataItem::from_be_bytes(&[0xFF, 0x42, 0x00, 0x20]).is_err());
}

#[test]
fn return_items() {
    let r = ReturnItem::new(S7ReturnCode::Success);
    assert_eq!(r.to_be_bytes(), vec![0xFF]);
    assert_eq!(r.byte_len(), 1);
    assert_eq!(ReturnItem::from_be_bytes(&[0xFF]).unwrap(), r);
    assert!(ReturnItem::from_be_bytes(&[0x42]).is_err());
    assert_eq!(S7ReturnItem::from_be_bytes(&[0x0A]).unwrap(), S7ReturnItem::Return(ReturnItem::new(S7ReturnCode::ObjectDoesNotExist)));
    let d = S7ReturnItem::from_be_bytes(&[0xFF, 0x04, 0x00, 0x08, 0x7F]).unwrap();
    match &d {
        S7ReturnItem::Data(di) => assert_eq!(di.data, vec![0x7F]),
        _ => panic!("data item expected"),
    }
    assert_eq!(d.byte_len(), 5);
    assert_eq!(d.to_be_bytes(), vec![0xFF, 0x04, 0x00, 0x08, 0x7F]);
}

#[test]
fn header_bytes() {
    let mut h = S7Header::new(S7MessageType::Job, 0x0102);
    h.set_parameter_len(14);
    h.set_data_len(0);
    assert_eq!(h.message_type(), S7MessageType::Job);
    assert_eq!(h.paremater_len(), 14);
    assert_eq!(h.data_len(), 0);
    assert_eq!(h.byte_len(), 10);
    let b = h.to_be_bytes();
    assert_eq!(b, vec![0x32, 0x01, 0x00, 0x00, 0x01, 0x02, 0x00, 0x0E, 0x00, 0x00]);
    assert_eq!(S7Header::from_be_bytes(&b).unwrap(), Some(h));
    let d = S7Header::default();
    assert_eq!(d.pdu_reference, 0);
}

#[test]
fn header_error_fields() {
    let b = [0x32, 0x03, 0x00, 0x00, 0x00, 0x01, 0x00, 0x02, 0x00, 0x00, 0x87, 0x04];
    let h = S7Header::from_be_bytes(&b).unwrap().unwrap();
    assert_eq!(h.message_type, S7MessageType::AckData);
    assert_eq!(h.error_class, Some(S7ErrorClass::AccessError));
    assert_eq!(h.error_code, Some(0x04));
    assert_eq!(h.byte_len(), 12);
    assert_eq!(h.to_be_bytes(), b.to_vec());
    assert!(S7Header::from_be_bytes(&[0x32, 0x03, 0, 0, 0, 1, 0, 2, 0, 0, 0x99, 0x04]).is_err());
    assert!(S7Header::from_be_bytes(&[0x32, 0x55]).is_err());
}

#[test]
fn read_request_frame() {
    let mut items = vec![RequestItem::parse_byte("DB1.DBW20", 2).unwrap()];
    let f = S7Data::create_read_request(&mut items);
    let b = f.to_be_bytes();
    let mut expected = vec![
        0x03, 0x00, 0x00, 0x1F, 0x02, 0xF0, 0x80, 0x32, 0x01, 0x00, 0x00, 0x00, 0x00, 0x00, 0x0E, 0x00, 0x00,
        0x04, 0x01,
    ];
    expected.extend_from_slice(&[0x12, 0x0A, 0x10, 0x02, 0x00, 0x02, 0x00, 0x01, 0x84, 0x00, 0x00, 0xA0]);
    assert_eq!(b, expected);
    assert!(S7Data::is_readable(&b));
    let back = S7Data::from_be_bytes(&b).unwrap().unwrap();
    assert_eq!(back.to_be_bytes(), expected);
}

#[test]
fn write_request_frame() {
    let mut items = vec![RequestItem::parse_byte("DB1.DBB0", 3).unwrap()];
    let data = vec![DataItem::create_req_bytes(vec![1, 2, 3]).unwrap()];
    let f = S7Data::create_write_request(&mut items, data);
    let b = f.to_be_bytes();
    assert_eq!(b[17], 0x05);
    // header data length: one item of 4 + 3 bytes
    assert_eq!(&b[15..17], &[0x00, 0x07]);
    assert_eq!(&b[b.len() - 7..], &[0x00, 0x04, 0x00, 0x18, 0x01, 0x02, 0x03]);
    assert_eq!(b.len(), 4 + 3 + 10 + 14 + 7);
    assert_eq!(f.tpkt.length as usize, b.len());
}

#[test]
fn szl_request_frame() {
    let f = S7Data::create_szl_request(0x0011, 0x0000);
    let b = f.to_be_bytes();
    assert_eq!(f.tpkt.length as usize, b.len());
    assert_eq!(b[8], 0x07);
    assert!(S7Data::is_readable(&b));
    let back = S7Data::from_be_bytes(&b).unwrap().unwrap();
    assert_eq!(back.to_be_bytes(), b);
    match back.datum {
        Some(Datum::Szl(z)) => {
            assert_eq!(z.szl_id, 0x0011);
            assert_eq!(z.szl_index, 0x0000);
        },
        _ => panic!("SZL datum expected"),
    }
}

#[test]
fn szl_daum_bytes() {
    let z = SzlDaum::new(0x001C, 0x0001);
    let b = z.to_be_bytes();
    assert_eq!(b.len(), z.byte_len());
    assert_eq!(&b[4..8], &[0x00, 0x1C, 0x00, 0x01]);
    let back = SzlDaum::from_be_bytes(&b).unwrap();
    assert_eq!(back.szl_id, 0x001C);
    assert_eq!(back.szl_index, 0x0001);
    assert!(SzlDaum::from_be_bytes(&[0x42, 0x09, 0x00, 0x04, 0x00, 0x11, 0x00, 0x00]).is_err());
    let short = SzlDaum::from_be_bytes(&[0xFF, 0x09, 0x00, 0x04, 0x00, 0x11, 0x00, 0x00]).unwrap();
    assert_eq!(short.partlist_count, None);
    assert_eq!(short.all_data, None);
    let full = SzlDaum::from_be_bytes(&[0xFF, 0x09, 0x00, 0x06, 0x00, 0x11, 0x00, 0x00, 0x00, 0x02, 0x00, 0x01, 0xAB, 0xCD]).unwrap();
    assert_eq!(full.partlist_byte_len, Some(2));
    assert_eq!(full.partlist_count, Some(1));
    assert_eq!(full.all_data, Some(vec![0xAB, 0xCD]));
}

#[test]
fn read_write_datum_bytes() {
    let mut d = ReadWriteDatum::new(vec![DataItem::create_req_bytes(vec![0xAB]).unwrap()]);
    d.add_item(S7ReturnItem::Data(DataItem::create_req_bytes(vec![0xCD, 0xEF]).unwrap()));
    let b = d.to_be_bytes();
    // the odd-length first item is padded with a zero byte
    assert_eq!(b, vec![0x00, 0x04, 0x00, 0x08, 0xAB, 0x00, 0x00, 0x04, 0x00, 0x10, 0xCD, 0xEF]);
    assert_eq!(d.byte_len(), b.len());
    let back = ReadWriteDatum::from_be_bytes(&b, S7MessageType::Job, S7FunctionCode::WriteVariable).unwrap();
    assert_eq!(back.return_items.len(), 2);
    assert_eq!(back.to_be_bytes(), b);
}

#[test]
fn frame_from_bytes_errors() {
    assert!(!S7Data::is_readable(&[0x03, 0x00]));
    assert!(!S7Data::is_readable(&[0x03, 0x00, 0x00, 0x05, 0x00]));
    let bad_cotp = [0x03, 0x00, 0x00, 0x07, 0x02, 0x12, 0x80];
    assert!(S7Data::is_readable(&bad_cotp));
    assert!(S7Data::from_be_bytes(&bad_cotp).is_err());
    // header claims a 14-byte parameter part that is not there
    let short = [0x03, 0x00, 0x00, 0x13, 0x02, 0xF0, 0x80, 0x32, 0x01, 0x00, 0x00, 0x00, 0x00, 0x00, 0x0E, 0x00, 0x00, 0x04, 0x01];
    assert!(!S7Data::is_readable(&short));
}

#[test]
fn codec_splits_frames() {
    let mut codec = S7DataCodec;
    let mut src = BytesMut::new();
    let mut two = cr_frame();
    two.extend_from_slice(&cr_frame()[..10]);
    src.extend_from_slice(&two);
    let first = codec.decode(&mut src).unwrap().unwrap();
    assert_eq!(first.to_vec(), cr_frame());
    assert_eq!(codec.decode(&mut src).unwrap(), None);
    src.extend_from_slice(&cr_frame()[10..]);
    let second = codec.decode(&mut src).unwrap().unwrap();
    assert_eq!(second.to_vec(), cr_frame());
    let mut dst = BytesMut::new();
    codec.encode(vec![1, 2, 3], &mut dst).unwrap();
    assert_eq!(dst.to_vec(), vec![1, 2, 3]);
}

#[test]
fn hex_rendering() {
    assert_eq!(bytes_to_hex(&[0x01, 0xAB, 0x00]), "01 AB 00");
    assert_eq!(bytes_to_hex(&[]), "");
}

fn error_text(e: tokio_s7::error::S7Error) -> String {
    match e {
        tokio_s7::error::S7Error::Error(m) => m,
        other => panic!("message error expected, got {:?}", other),
    }
}

#[test]
fn decoder_messages() {
    assert_eq!(error_text(Cotp::from_be_bytes(&[0x02, 0x12, 0x80]).unwrap_err()), "Unknown PDU type: 0x12");
    assert_eq!(
        error_text(Cotp::from_be_bytes(&[0x03, 0xF0, 0x80, 0x00]).unwrap_err()),
        "Invalid CotpData frame length: expected 3, got 4"
    );
    assert_eq!(
        error_text(Cotp::from_be_bytes(&[0x02, 0xE0, 0x00]).unwrap_err()),
        "Invalid CotpConnection frame length: expected 18, got 3"
    );
    assert_eq!(error_text(S7Header::from_be_bytes(&[0x32, 0x55]).unwrap_err()), "Unknown message type: 0x55");
    assert_eq!(
        error_text(S7Header::from_be_bytes(&[0x32, 0x03, 0, 0, 0, 1, 0, 2, 0, 0, 0x99, 0x04]).unwrap_err()),
        "Unknown error class: 0x99"
    );
    assert_eq!(error_text(RequestItem::from_be_bytes(&[0x12; 5]).unwrap_err()), "data too short for RequestItem");
    let mut b = RequestItem::parse_byte("DB1.DBB0", 1).unwrap().to_be_bytes();
    b[8] = 0x01;
    assert_eq!(error_text(RequestItem::from_be_bytes(&b).unwrap_err()), "Unknown S7Area: 0x01");
    assert_eq!(
        error_text(DataItem::from_be_bytes(&[0xFF, 0x04, 0x00, 0x20, 0x01]).unwrap_err()),
        "DataItem: insufficient data body"
    );
    assert_eq!(
        error_text(DataItem::from_be_bytes(&[0x42, 0x04, 0x00, 0x08, 0x01]).unwrap_err()),
        "Unknown S7ReturnCode: 0x42"
    );
    assert_eq!(
        error_text(S7Parameter::from_be_bytes(&[0x04, 0x01, 0x12, 0x0A, 0x13]).unwrap_err()),
        "Unsupported SyntaxID: 0x13 for function: 0x04"
    );
    assert_eq!(error_text(S7Parameter::from_be_bytes(&[0x99]).unwrap_err()), "Unknown S7FunctionCode: 0x99");
    let bad_cotp = [0x03, 0x00, 0x00, 0x07, 0x02, 0x12, 0x80];
    assert_eq!(error_text(S7Data::from_be_bytes(&bad_cotp).unwrap_err()), "Unknown PDU type: 0x12");
}

#[test]
fn documented_addresses() {
    let w = RequestItem::parse_byte("DB2.W282", 2).unwrap();
    assert_eq!((w.area, w.db_number, w.byte_address, w.count), (S7Area::DataBlocks, 2, 282, 2));
    let r = RequestItem::parse_byte("DB3.1", 4).unwrap();
    assert_eq!((r.db_number, r.byte_address), (3, 1));
    let s = RequestItem::parse_byte("DB2.STRING20", 102).unwrap();
    assert_eq!((s.db_number, s.byte_address, s.count), (2, 20, 102));
    let f = RequestItem::parse_byte("DB2.REAL224", 4).unwrap();
    assert_eq!((f.db_number, f.byte_address), (2, 224));
    let b = RequestItem::parse_bit("DB2.X32.2").unwrap();
    assert_eq!((b.db_number, b.byte_address, b.bit_address), (2, 32, 2));
}

#[test]
fn address_case_is_ignored() {
    for (upper, lower) in [("DB10.DBB5", "db10.dbb5"), ("MB4", "mb4"), ("VB100", "vb100"), ("QB2", "qb2")] {
        assert_eq!(RequestItem::parse_byte(upper, 3).unwrap(), RequestItem::parse_byte(lower, 3).unwrap());
    }
    assert_eq!(RequestItem::parse_bit("DB10.5.3").unwrap(), RequestItem::parse_bit("db10.5.3").unwrap());
    assert_eq!(parse_message(RequestItem::parse_byte("z1", 1)), parse_message(RequestItem::parse_byte("Z1", 1)));
    let v = RequestItem::parse_byte("vb7", 4).unwrap();
    assert_eq!((v.area, v.db_number, v.byte_address, v.bit_address, v.count), (S7Area::DataBlocks, 1, 7, 0, 4));
    assert_eq!(v.variable_type, S7ParamVariableType::Byte);
}

#[test]
fn frame_lengths_agree_with_parts() {
    let mut items = vec![
        RequestItem::parse_byte("DB1.DBB0", 3).unwrap(),
        RequestItem::parse_byte("MB4", 1).unwrap(),
    ];
    let data = vec![
        DataItem::create_req_bytes(vec![1, 2, 3]).unwrap(),
        DataItem::create_req_bytes(vec![9]).unwrap(),
    ];
    let f = S7Data::create_write_request(&mut items, data);
    let b = f.to_be_bytes();
    assert_eq!(f.byte_len(), b.len());
    assert_eq!(f.tpkt.length as usize, b.len());
    let h = f.header.unwrap();
    assert_eq!(h.parameter_length as usize, f.parameter.as_ref().unwrap().byte_len());
    assert_eq!(h.parameter_length, 2 + 12 * 2);
    // 4 + 3 data bytes, a fill byte, then 4 + 1
    assert_eq!(h.data_length, 7 + 1 + 5);
    for f in [S7Data::create_cr_connection(0x0100, 0x0102), S7Data::create_setup_comm(480), S7Data::create_szl_request(0x0011, 0)] {
        let b = f.to_be_bytes();
        assert_eq!(f.byte_len(), b.len());
        assert_eq!(f.tpkt.length as usize, b.len());
    }
}

#[test]
fn datum_length_sums_items_and_fill() {
    // items of 1 and 2 data bytes: 5 + 1 fill + 6
    let d = ReadWriteDatum::new(vec![
        DataItem::create_req_bytes(vec![1]).unwrap(),
        DataItem::create_req_bytes(vec![2, 3]).unwrap(),
    ]);
    assert_eq!(d.byte_len(), 12);
    // the last item gets no fill byte
    let d = ReadWriteDatum::new(vec![
        DataItem::create_req_bytes(vec![1, 2]).unwrap(),
        DataItem::create_req_bytes(vec![3]).unwrap(),
    ]);
    assert_eq!(d.byte_len(), 11);
    assert_eq!(d.to_be_bytes().len(), 11);
    assert_eq!(ReadWriteDatum::new(Vec::new()).byte_len(), 0);
}

#[test]
fn szl_record_length() {
    assert_eq!(SzlDaum::new(0x0011, 0).byte_len(), 8);
    let full = SzlDaum::from_be_bytes(&[0xFF, 0x09, 0x00, 0x07, 0x00, 0x11, 0x00, 0x00, 0x00, 0x03, 0x00, 0x01, 1, 2, 3]).unwrap();
    assert_eq!(full.byte_len(), 12 + 3);
    assert_eq!(full.to_be_bytes().len(), 15);
}
