use tokio_s7::client::{
    bool_from_items, check_connect_confirm, check_pdu_limit, check_response, decode_string, decode_wstring,
    encode_string, encode_wstring, encode_wstring_units, first_byte, first_item_data, i16_from_be, i16_to_be,
    i32_from_be, i32_to_be, i64_from_be, i64_to_be, negotiated_pdu_length, read_response_items, str_to_latin1,
    u16_from_be, u16_to_be, u32_from_be, u32_to_be, u64_from_be, u64_to_be, ConnectionState, FrameDecoder,
    S7Config,
};
use tokio_s7::error::S7Error;
use tokio_s7::header::S7Header;
use tokio_s7::item::DataItem;
use tokio_s7::packet::S7Data;
use tokio_s7::tpkt::TPKT;
use tokio_s7::types::{PlcType, S7ErrorClass, S7MessageType};

fn parse(bytes: &[u8]) -> S7Data {
    assert!(S7Data::is_readable(bytes));
    S7Data::from_be_bytes(bytes).unwrap().unwrap()
}

fn message(e: S7Error) -> String {
    match e {
        S7Error::Error(m) => m,
        _ => panic!("message error expected"),
    }
}

#[test]
fn config_defaults_and_builders() {
    let c = S7Config::new("10.0.0.5");
    assert_eq!(c.host, "10.0.0.5");
    assert_eq!(c.port, 102);
    assert_eq!(c.rack, 0);
    assert_eq!(c.slot, 2);
    assert_eq!(c.timeout_ms, 5000);
    assert_eq!(c.max_pdu_size, 960);
    assert!(!c.auto_reconnect);
    let d = S7Config::default();
    assert_eq!(d.host, "127.0.0.1");
    let c = c
        .with_plc_type(PlcType::S400)
        .with_port(1102)
        .with_timeout(250)
        .with_auto_reconnect(true)
        .with_connection_type(0x03);
    assert_eq!(c.plc_type, PlcType::S400);
    assert_eq!((c.rack, c.slot), (0, 3));
    assert_eq!(c.port, 1102);
    assert_eq!(c.timeout_ms, 250);
    assert!(c.auto_reconnect);
    assert_eq!(c.connection_type, 0x03);
    let c = c.with_rack_slot(1, 4);
    assert_eq!((c.rack, c.slot), (1, 4));
    assert_eq!(c.tsap_pair(), (0x0100, 0x0324));
    assert_eq!(S7Config::new("h").with_plc_type(PlcType::S200).tsap_pair(), (0x4D57, 0x4D57));
    assert_eq!(S7Config::new("h").with_plc_type(PlcType::S200Smart).tsap_pair(), (0x1000, 0x3000));
    assert_eq!(S7Config::new("h").with_plc_type(PlcType::Sinumerik828D).tsap_pair(), (0x0400, 0x0D04));
    assert_ne!(ConnectionState::Connected, ConnectionState::Negotiated);
}

#[test]
fn frame_decoder_splits_and_completes() {
    let cc = [
        0x03, 0x00, 0x00, 0x16, 0x11, 0xD0, 0x00, 0x01, 0x00, 0x01, 0x00, 0xC0, 0x01, 0x0A, 0xC1, 0x02, 0x01,
        0x00, 0xC2, 0x02, 0x01, 0x01,
    ];
    let mut d = FrameDecoder::new();
    assert_eq!(d.try_decode(), None);
    d.extend_from_slice(&cc[..5]);
    assert_eq!(d.pending_len(), 5);
    assert_eq!(d.try_decode(), None);
    d.extend_from_slice(&cc[5..]);
    d.extend_from_slice(&[0x02, 0xF0, 0x80]);
    assert_eq!(d.try_decode(), Some(cc.to_vec()));
    assert_eq!(d.pending_len(), 3);
    // a COTP data header without TPKT gets one in front of it
    d.extend_from_slice(&[0x00]);
    assert_eq!(d.try_decode(), Some(vec![0x03, 0x00, 0x00, 0x07, 0x02, 0xF0, 0x80]));
    assert_eq!(d.pending_len(), 1);
    d.clear();
    assert_eq!(d.pending_len(), 0);
    // a TPKT length below four drops what was received
    d.extend_from_slice(&[0x03, 0x00, 0x00, 0x02, 0x09]);
    assert_eq!(d.try_decode(), None);
    assert_eq!(d.pending_len(), 0);
}

#[test]
fn response_error_is_refused() {
    let mut h = S7Header::new(S7MessageType::AckData, 1);
    h.error_class = Some(S7ErrorClass::AccessError);
    h.error_code = Some(4);
    let resp = S7Data { tpkt: TPKT::default(), cotp: None, header: Some(h), parameter: None, datum: None };
    let m = message(check_response(&resp).unwrap_err());
    assert_eq!(m, "Response error: class=Some(AccessError), code=4");
    h.error_class = Some(S7ErrorClass::NoError);
    let ok = S7Data { tpkt: TPKT::default(), cotp: None, header: Some(h), parameter: None, datum: None };
    assert!(check_response(&ok).is_ok());
    let none = S7Data { tpkt: TPKT::default(), cotp: None, header: None, parameter: None, datum: None };
    assert!(check_response(&none).is_ok());
}

#[test]
fn connect_confirm() {
    let cc = [
        0x03, 0x00, 0x00, 0x16, 0x11, 0xD0, 0x00, 0x01, 0x00, 0x01, 0x00, 0xC0, 0x01, 0x0A, 0xC1, 0x02, 0x01,
        0x00, 0xC2, 0x02, 0x01, 0x01,
    ];
    assert!(check_connect_confirm(&parse(&cc)).is_ok());
    let mut cr = cc;
    cr[5] = 0xE0;
    assert_eq!(message(check_connect_confirm(&parse(&cr)).unwrap_err()), "COTP connection refused");
    let bare = S7Data { tpkt: TPKT::default(), cotp: None, header: None, parameter: None, datum: None };
    assert_eq!(message(check_connect_confirm(&bare).unwrap_err()), "Missing COTP in response");
}

#[test]
fn setup_answer_gives_pdu_length() {
    let ack = [
        0x03, 0x00, 0x00, 0x1B, 0x02, 0xF0, 0x80, 0x32, 0x03, 0x00, 0x00, 0x00, 0x00, 0x00, 0x08, 0x00, 0x00,
        0x00, 0x00, 0xF0, 0x00, 0x00, 0x01, 0x00, 0x01, 0x00, 0xF0,
    ];
    assert_eq!(negotiated_pdu_length(&parse(&ack)).unwrap(), 240);
    let cc = [
        0x03, 0x00, 0x00, 0x16, 0x11, 0xD0, 0x00, 0x01, 0x00, 0x01, 0x00, 0xC0, 0x01, 0x0A, 0xC1, 0x02, 0x01,
        0x00, 0xC2, 0x02, 0x01, 0x01,
    ];
    assert_eq!(message(negotiated_pdu_length(&parse(&cc)).unwrap_err()), "Setup response COTP type error");
}

#[test]
fn pdu_limit() {
    assert!(check_pdu_limit(7 + 240, 240, false).is_ok());
    assert_eq!(message(check_pdu_limit(7 + 241, 240, false).unwrap_err()), "Read request exceeds PDU limit");
    assert_eq!(message(check_pdu_limit(7 + 241, 240, true).unwrap_err()), "Write request exceeds PDU limit");
}

#[test]
fn read_answer_items() {
    let resp = [
        0x03, 0x00, 0x00, 0x1B, 0x02, 0xF0, 0x80, 0x32, 0x03, 0x00, 0x00, 0x00, 0x01, 0x00, 0x02, 0x00, 0x06,
        0x00, 0x00, 0x04, 0x01, 0xFF, 0x04, 0x00, 0x10, 0x12, 0x34,
    ];
    let s = parse(&resp);
    assert!(check_response(&s).is_ok());
    let items = read_response_items(&s).unwrap();
    assert_eq!(items.len(), 1);
    assert_eq!(items[0].data, vec![0x12, 0x34]);
    assert_eq!(items[0].count, 2);
    assert!(bool_from_items(&items).unwrap() == false);
    let data = first_item_data(items).unwrap();
    assert_eq!(u16_from_be(&data), 0x1234);
    assert_eq!(first_byte(&data).unwrap(), 0x12);
    assert!(first_byte(&vec![]).is_err());
    assert!(first_item_data(vec![]).is_err());
    let none = S7Data { tpkt: TPKT::default(), cotp: None, header: None, parameter: None, datum: None };
    assert_eq!(message(read_response_items(&none).unwrap_err()), "No data in read response");
}

#[test]
fn bits_from_items() {
    let items = vec![DataItem::create_req_bytes(vec![0x03]).unwrap()];
    assert!(bool_from_items(&items).unwrap());
    let items = vec![DataItem::create_req_bytes(vec![0x02]).unwrap()];
    assert!(!bool_from_items(&items).unwrap());
    assert!(bool_from_items(&vec![]).is_err());
}

#[test]
fn big_endian_numbers() {
    assert_eq!(u16_to_be(0x1234), vec![0x12, 0x34]);
    assert_eq!(i16_to_be(-2), vec![0xFF, 0xFE]);
    assert_eq!(i16_from_be(&[0xFF, 0xFE]), -2);
    assert_eq!(u32_to_be(0xDEADBEEF), vec![0xDE, 0xAD, 0xBE, 0xEF]);
    assert_eq!(u32_from_be(&[0xDE, 0xAD, 0xBE, 0xEF]), 0xDEADBEEF);
    assert_eq!(i32_to_be(-1), vec![0xFF; 4]);
    assert_eq!(i32_from_be(&[0x80, 0, 0, 0]), i32::MIN);
    assert_eq!(u64_to_be(0x0102030405060708), vec![1, 2, 3, 4, 5, 6, 7, 8]);
    assert_eq!(u64_from_be(&[1, 2, 3, 4, 5, 6, 7, 8]), 0x0102030405060708);
    assert_eq!(i64_from_be(&i64_to_be(-1234567890123)), -1234567890123);
    assert_eq!(u16_from_be(&u16_to_be(65535)), 65535);
}

#[test]
fn latin1_encoding() {
    assert_eq!(str_to_latin1("Aé").unwrap(), vec![0x41, 0xE9]);
    let m = message(str_to_latin1("a你").unwrap_err());
    assert_eq!(m, "Character '你' cannot be encoded in Latin-1 / STRING");
}

#[test]
fn string_write_then_read() {
    let img = encode_string(10, "hello").unwrap();
    assert_eq!(img, vec![10, 5, b'h', b'e', b'l', b'l', b'o', 0, 0, 0, 0, 0]);
    assert_eq!(decode_string(&img).unwrap(), "hello");
    let m = message(encode_string(3, "hello").unwrap_err());
    assert_eq!(m, "String too long: 5 bytes, max allowed 3");
    assert!(encode_string(10, "中").is_err());
}

#[test]
fn string_read_errors() {
    assert_eq!(message(decode_string(&vec![5]).unwrap_err()), "read_string: response too short");
    assert_eq!(message(decode_string(&vec![5, 4, b'a']).unwrap_err()), "read_string: data truncated");
    assert_eq!(decode_string(&vec![5, 0]).unwrap(), "");
}

#[test]
fn wstring_write_then_read() {
    let img = encode_wstring(4, "你好").unwrap().unwrap();
    assert_eq!(img, vec![0x00, 0x04, 0x00, 0x02, 0x4F, 0x60, 0x59, 0x7D, 0, 0, 0, 0]);
    assert_eq!(decode_wstring(&img).unwrap(), "你好");
    let m = message(encode_wstring(1, "ab").unwrap().unwrap_err());
    assert!(encode_wstring(0x7FFE, "a").is_none());
    assert!(encode_wstring(0x7FFE, "").is_none());
    assert_eq!(m, "WString too long: 2 code units, max allowed 1");
    let units = encode_wstring_units(2, &vec![0xD83D, 0xDE00]).unwrap();
    assert_eq!(decode_wstring(&units).unwrap(), "😀");
}

#[test]
fn wstring_read_errors() {
    assert_eq!(message(decode_wstring(&vec![0, 1, 0]).unwrap_err()), "read_wstring: response too short");
    assert_eq!(message(decode_wstring(&vec![0, 2, 0, 2, 0x00, 0x41]).unwrap_err()), "read_wstring: data truncated");
    assert_eq!(
        message(decode_wstring(&vec![0, 1, 0, 1, 0xD8, 0x00]).unwrap_err()),
        "read_wstring: invalid UTF-16 data"
    );
    // the actual length is capped by the maximum
    assert_eq!(decode_wstring(&vec![0, 1, 0, 5, 0x00, 0x41]).unwrap(), "A");
}

#[test]
fn connection_errors() {
    assert!(S7Error::ConnectionClosed.is_connection_error());
    assert!(S7Error::NotConnected.is_connection_error());
    assert!(S7Error::ConnectionTimeout { host: "h".to_string(), port: 102 }.is_connection_error());
    assert!(!S7Error::Timeout(5).is_connection_error());
    assert!(!S7Error::Error("x".to_string()).is_connection_error());
}

#[test]
fn error_class_message() {
    assert_eq!(tokio_s7::client::class_error_text("X", None, 7), "X: class=None, code=7");
    assert_eq!(
        tokio_s7::client::class_error_text("Response error", Some(S7ErrorClass::AccessError), 212),
        "Response error: class=Some(AccessError), code=212"
    );
}

#[test]
fn latin1_string_roundtrip() {
    let img = encode_string(10, "Aé°ÿ").unwrap();
    assert_eq!(&img[..6], &[10, 4, 0x41, 0xE9, 0xB0, 0xFF]);
    assert_eq!(decode_string(&img).unwrap(), "Aé°ÿ");
    // every byte is read as the character with that code
    assert_eq!(decode_string(&vec![3, 2, 0x80, 0xC4]).unwrap(), "\u{80}Ä");
}
