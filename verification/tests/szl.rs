use tokio_s7::datum::{Datum, ReadWriteDatum, SzlDaum};
use tokio_s7::error::S7Error;
use tokio_s7::packet::S7Data;
use tokio_s7::szl::{
    communication_info_of, contains_chars, cpu_info_of, order_code_of, parse_sub_record_fields, plc_status_of,
    scan_ascii_fields, starts_with_chars,
};
use tokio_s7::tpkt::TPKT;
use tokio_s7::types::{CommunicationInfo, PlcStatus, S7ReturnCode};

fn answer(szl_id: u16, entry_len: u16, count: u16, payload: Vec<u8>) -> S7Data {
    let z = SzlDaum {
        return_code: S7ReturnCode::Success,
        transport_size: 0x09,
        data_len: (payload.len() + 8) as u16,
        szl_id,
        szl_index: 0,
        partlist_byte_len: Some(entry_len),
        partlist_count: Some(count),
        all_data: Some(payload),
    };
    S7Data { tpkt: TPKT::default(), cotp: None, header: None, parameter: None, datum: Some(Datum::Szl(z)) }
}

fn chars(s: &str) -> Vec<char> {
    s.chars().collect()
}

fn message(e: S7Error) -> String {
    match e {
        S7Error::Error(m) => m,
        _ => panic!("message error expected"),
    }
}

/// A fixed-length record: the 16-bit index, the text, zeros up to `len` bytes.
fn record(idx: u16, text: &str, len: usize) -> Vec<u8> {
    let mut r = vec![(idx >> 8) as u8, idx as u8];
    r.extend_from_slice(text.as_bytes());
    r.resize(len, 0);
    r
}

#[test]
fn order_code_from_records() {
    let mut payload = vec![0x00, 0x01];
    payload.extend_from_slice(b"6ES7 214-1AG40-0XB0 ");
    payload.extend_from_slice(&[0x00, 0x00, 0x00, 0x04, 0x02, 0x01]);
    let oc = order_code_of(&answer(0x0011, 28, 1, payload)).unwrap();
    assert_eq!(oc.code, "6ES7 214-1AG40-0XB0");
    assert_eq!((oc.v1, oc.v2, oc.v3), (4, 2, 1));
}

#[test]
fn order_code_skips_other_records() {
    let mut payload = record(0x0006, "6ES7 999-0000", 28);
    payload.extend_from_slice(&record(0x0001, "  ", 28));
    payload.extend_from_slice(&record(0x0001, "6ES7 315-2AH14-0AB0", 28));
    let oc = order_code_of(&answer(0x0011, 28, 3, payload)).unwrap();
    assert_eq!(oc.code, "6ES7 315-2AH14-0AB0");
    assert_eq!((oc.v1, oc.v2, oc.v3), (0, 0, 0));
}

#[test]
fn order_code_from_scan() {
    let mut payload = vec![0x01, 0x02];
    payload.extend_from_slice(b"Hi");
    payload.push(0x00);
    payload.extend_from_slice(b"abcd 12");
    payload.push(0x00);
    payload.extend_from_slice(b"6es7315-2AH14-0AB0");
    payload.extend_from_slice(&[0x00, 0x07, 0x08, 0x09]);
    let oc = order_code_of(&answer(0x0011, 4, 0, payload)).unwrap();
    assert_eq!(oc.code, "6es7315-2AH14-0AB0");
    assert_eq!((oc.v1, oc.v2, oc.v3), (7, 8, 9));
    let none = order_code_of(&answer(0x0011, 4, 0, vec![0x01, b'6', b'E', b'S', b'7'])).unwrap();
    assert_eq!(none.code, "");
}

#[test]
fn answers_without_szl_are_refused() {
    let empty = S7Data { tpkt: TPKT::default(), cotp: None, header: None, parameter: None, datum: None };
    assert_eq!(message(order_code_of(&empty).unwrap_err()), "Response has no any data");
    assert_eq!(message(cpu_info_of(&empty).unwrap_err()), "Response has no any data");
    assert_eq!(message(communication_info_of(&empty).unwrap_err()), "Response has no any data");
    assert_eq!(message(plc_status_of(&empty).unwrap_err()), "Response has no any data");
    let rw = S7Data {
        tpkt: TPKT::default(),
        cotp: None,
        header: None,
        parameter: None,
        datum: Some(Datum::ReadWrite(ReadWriteDatum::default())),
    };
    assert_eq!(message(order_code_of(&rw).unwrap_err()), "Datum is not Szl");
    assert_eq!(message(cpu_info_of(&rw).unwrap_err()), "Datum is not Szl");
    assert_eq!(message(communication_info_of(&rw).unwrap_err()), "Datum is not Szl");
    assert_eq!(message(plc_status_of(&rw).unwrap_err()), "Datum is not Szl");
}

#[test]
fn cpu_info_from_records() {
    let mut payload = record(0x0001, "PLC_1", 34);
    payload.extend_from_slice(&record(0x0002, "CPU 1214C", 34));
    payload.extend_from_slice(&record(0x0007, "CPU 1214C DC/DC/DC", 34));
    payload.extend_from_slice(&record(0x0005, "S C-X4U421302009", 34));
    payload.extend_from_slice(&record(0x0005, "ignored", 34));
    payload.extend_from_slice(&record(0x0004, "Siemens AG 2019", 34));
    let info = cpu_info_of(&answer(0x001C, 34, 6, payload)).unwrap();
    assert_eq!(info.as_name, "PLC_1");
    assert_eq!(info.module_name, "CPU 1214C");
    assert_eq!(info.module_type, "CPU 1214C DC/DC/DC");
    assert_eq!(info.serial_number, "S C-X4U421302009");
    assert_eq!(info.copyright, "Siemens AG 2019");
}

#[test]
fn cpu_info_module_name_from_plant_name() {
    let payload = record(0x0001, "Station A", 34);
    let info = cpu_info_of(&answer(0x001C, 34, 1, payload)).unwrap();
    assert_eq!(info.as_name, "Station A");
    assert_eq!(info.module_name, "Station A");
    assert_eq!(info.module_type, "");
}

#[test]
fn cpu_info_from_sub_records() {
    let mut payload = vec![0x00, 0x07];
    payload.extend_from_slice(b"CPU 315-2 PN/DP");
    payload.extend_from_slice(&[0x00, 0x06]);
    payload.extend_from_slice(b"S C-B1234567");
    payload.extend_from_slice(&[0x00, 0x05]);
    payload.extend_from_slice(b"Plant");
    payload.extend_from_slice(&[0x00, 0x08]);
    payload.extend_from_slice(b"Module");
    payload.push(0x00);
    payload.extend_from_slice(b"Boot Loader");
    payload.push(0x00);
    let (mt, sn, an, cr, mn) = parse_sub_record_fields(&payload);
    assert_eq!(mt, chars("CPU 315-2 PN/DP"));
    assert_eq!(sn, chars("S C-B1234567"));
    assert_eq!(an, chars("Plant"));
    assert_eq!(cr, chars("Boot Loader"));
    assert_eq!(mn, chars("Module"));
    let info = cpu_info_of(&answer(0x001C, 4, 0, payload)).unwrap();
    assert_eq!(info.module_type, "CPU 315-2 PN/DP");
    assert_eq!(info.serial_number, "S C-B1234567");
    assert_eq!(info.as_name, "Plant");
    assert_eq!(info.copyright, "Boot Loader");
    assert_eq!(info.module_name, "Module");
}

#[test]
fn sub_records_rules() {
    let mut payload = vec![0x00, 0x01];
    payload.extend_from_slice(b"6ES7 315");
    payload.extend_from_slice(&[0x00, 0x01]);
    payload.extend_from_slice(b"P Boot 1");
    payload.extend_from_slice(&[0x00, 0x01]);
    payload.extend_from_slice(b" IM151 ");
    payload.extend_from_slice(&[0x00, 0x07]);
    payload.extend_from_slice(b"second");
    payload.push(0x00);
    let (mt, sn, an, cr, mn) = parse_sub_record_fields(&payload);
    assert_eq!(mt, chars("IM151"));
    assert!(sn.is_empty() && an.is_empty() && mn.is_empty());
    assert_eq!(cr, chars("P Boot 1"));
}

#[test]
fn cpu_info_last_resort_scan() {
    let mut payload = vec![0xFF];
    payload.extend_from_slice(b"HBOOT 1.0");
    payload.push(0xFF);
    payload.extend_from_slice(b"AB12-3456");
    payload.push(0xFF);
    payload.extend_from_slice(b"CPU 1516-3 PN/DP");
    payload.push(0xFF);
    payload.extend_from_slice(b"MC_xyz123");
    let info = cpu_info_of(&answer(0x001C, 4, 0, payload)).unwrap();
    assert_eq!(info.module_type, "CPU 1516-3 PN/DP");
    assert_eq!(info.serial_number, "AB12-3456");
    assert_eq!(info.as_name, "");
    assert_eq!(info.copyright, "");
    assert_eq!(info.module_name, "");
}

#[test]
fn cpu_info_scan_uses_tags() {
    let mut payload = vec![0x11, 0x00, 0x04];
    payload.extend_from_slice(b"SN-0001");
    payload.extend_from_slice(&[0x10, 0x00, 0x09]);
    payload.extend_from_slice(b"Long module text");
    let info = cpu_info_of(&answer(0x001C, 4, 0, payload)).unwrap();
    assert_eq!(info.serial_number, "SN-0001");
    assert_eq!(info.module_type, "Long module text");
}

#[test]
fn communication_limits() {
    let mut payload = vec![0x00, 0x01, 0x00, 0xF0, 0x00, 0x10, 0x00, 0x02, 0xDC, 0x6C, 0x00, 0xB7, 0x1B, 0x00];
    payload.resize(40, 0);
    let info = communication_info_of(&answer(0x0131, 40, 1, payload.clone())).unwrap();
    assert_eq!(
        info,
        CommunicationInfo { max_pdu_len: 240, max_connections: 16, max_mpi_rate: 187500, max_bus_rate: 12000000 }
    );
    let zero = CommunicationInfo { max_pdu_len: 0, max_connections: 0, max_mpi_rate: 0, max_bus_rate: 0 };
    assert_eq!(communication_info_of(&answer(0x0132, 40, 1, payload.clone())).unwrap(), zero);
    assert_eq!(communication_info_of(&answer(0x0131, 8, 1, payload.clone())).unwrap(), zero);
    assert_eq!(communication_info_of(&answer(0x0131, 40, 0, payload)).unwrap(), zero);
}

#[test]
fn plc_status() {
    let status = |b: u8| plc_status_of(&answer(0x0424, 16, 1, vec![0x51, 0x44, 0xFF, b])).unwrap();
    assert_eq!(status(0x08), PlcStatus::Run);
    assert_eq!(status(0x04), PlcStatus::Stop);
    assert_eq!(status(0x03), PlcStatus::Stop);
    assert_eq!(status(0x00), PlcStatus::Unknown);
    assert_eq!(status(0x77), PlcStatus::Stop);
    assert_eq!(plc_status_of(&answer(0x0011, 16, 1, vec![])).unwrap(), PlcStatus::Unknown);
}

#[test]
fn printable_fields() {
    let data = b"\x00abc\x01  hello world  \x02xy\x03";
    assert_eq!(scan_ascii_fields(data, 10, 3), vec![chars("abc"), chars("hello world")]);
    assert_eq!(scan_ascii_fields(data, 1, 3), vec![chars("abc")]);
    assert_eq!(scan_ascii_fields(data, 10, 1), vec![chars("abc"), chars("hello world"), chars("xy")]);
    assert!(scan_ascii_fields(b"", 10, 1).is_empty());
}

#[test]
fn text_search() {
    assert!(starts_with_chars(&chars("6ES7 315"), &['6', 'E', 'S']));
    assert!(!starts_with_chars(&chars("6E"), &['6', 'E', 'S']));
    assert!(contains_chars(&chars("CPU 315 PN"), &['P', 'N']));
    assert!(!contains_chars(&chars("CPU 315"), &['P', 'N']));
    assert!(contains_chars(&chars("x"), &[]));
}
