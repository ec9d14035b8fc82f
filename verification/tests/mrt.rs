use rustybmp::bgp::types::{Ipv4Net, Prefix};
use rustybmp::mrt::error::MrtError;
use rustybmp::mrt::reader::{parse_bgp4mp_message, parse_bgp4mp_state_change, read_record, MrtReader};
use rustybmp::mrt::types::{Bgp4MpSubtype, BgpState, MrtType, TableDumpV2Subtype};
use rustybmp::mrt::writer::{
    epoch_secs, write_bgp4mp_message, write_bgp4mp_state_change, write_peer_index_table, write_rib_entry,
    MrtPeerEntry, MrtRibEntry,
};
use rustybmp::net::IpAddress;

fn ts() -> i64 {
    1_700_000_000
}

fn v4(a: [u8; 4]) -> IpAddress {
    IpAddress::V4(a)
}

#[test]
fn test_roundtrip_state_change() {
    let mut buf = Vec::new();
    write_bgp4mp_state_change(&mut buf, ts(), 65001, 65000, v4([10, 0, 0, 1]), v4([10, 0, 0, 2]), BgpState::Active, BgpState::Established);
    let (record, _) = read_record(&buf).unwrap().unwrap();
    assert_eq!(record.mrt_type, MrtType::Bgp4Mp.code());
    assert_eq!(record.subtype, Bgp4MpSubtype::StateChangeAs4.code());
    assert_eq!(record.timestamp as i64, ts());
    let (hdr, old, new) = parse_bgp4mp_state_change(&record.body).unwrap();
    assert_eq!(hdr.peer_as, 65001);
    assert_eq!(hdr.peer_addr, v4([10, 0, 0, 1]));
    assert_eq!(old, 3); // Active
    assert_eq!(new, 6); // Established
}

#[test]
fn test_roundtrip_bgp4mp_message() {
    let bgp_bytes = vec![0xFFu8; 29];
    let mut buf = Vec::new();
    write_bgp4mp_message(&mut buf, ts(), 65001, 65000, 0, v4([192, 0, 2, 1]), v4([192, 0, 2, 2]), &bgp_bytes);
    let (record, _) = read_record(&buf).unwrap().unwrap();
    let (hdr, pdu) = parse_bgp4mp_message(&record.body).unwrap();
    assert_eq!(hdr.peer_as, 65001);
    assert_eq!(pdu.len(), bgp_bytes.len());
    assert!(pdu.iter().all(|&b| b == 0xFF));
}

#[test]
fn reader_test_eof_returns_none() {
    let buf: &[u8] = &[];
    let result = read_record(buf).unwrap();
    assert!(result.is_none());
}

#[test]
fn test_mrt_reader_iterator() {
    let mut buf = Vec::new();
    for _ in 0..3 {
        write_bgp4mp_state_change(&mut buf, ts(), 65001, 65000, v4([10, 0, 0, 1]), v4([10, 0, 0, 2]), BgpState::Active, BgpState::Established);
    }
    let records = MrtReader::new(buf).read_all().unwrap();
    assert_eq!(records.len(), 3);
}

#[test]
fn test_is_bgp4mp_true() {
    let mut buf = Vec::new();
    write_bgp4mp_state_change(&mut buf, ts(), 65001, 65000, v4([10, 0, 0, 1]), v4([10, 0, 0, 2]), BgpState::Active, BgpState::Established);
    let (record, _) = read_record(&buf).unwrap().unwrap();
    assert!(record.is_bgp4mp(), "BGP4MP record must report is_bgp4mp()=true");
    assert!(!record.is_table_dump_v2(), "BGP4MP must not be TableDumpV2");
}

#[test]
fn test_timestamp_preserved() {
    let expected_ts: i64 = 1_600_000_000;
    let mut buf = Vec::new();
    write_bgp4mp_state_change(&mut buf, expected_ts, 65001, 65000, v4([10, 0, 0, 1]), v4([10, 0, 0, 2]), BgpState::Idle, BgpState::Active);
    let (record, _) = read_record(&buf).unwrap().unwrap();
    assert_eq!(record.timestamp as i64, expected_ts, "MRT timestamp must survive write→read roundtrip");
}

#[test]
fn test_truncated_header_returns_error() {
    let buf = vec![0u8; 11];
    let result = read_record(&buf);
    assert!(result.is_err() || result.unwrap().is_none(), "Truncated header must not produce a valid record");
}

#[test]
fn test_bgp4mp_message_peer_as_preserved() {
    let bgp_bytes = vec![0u8; 19];
    let mut buf = Vec::new();
    write_bgp4mp_message(&mut buf, ts(), 64512, 65000, 0, v4([10, 1, 1, 1]), v4([10, 1, 1, 2]), &bgp_bytes);
    let (record, _) = read_record(&buf).unwrap().unwrap();
    let (hdr, _pdu) = parse_bgp4mp_message(&record.body).unwrap();
    assert_eq!(hdr.peer_as, 64512, "peer AS must be preserved through MRT write/read");
}

#[test]
fn test_bgp4mp_message_peer_addr_preserved() {
    let bgp_bytes = vec![0u8; 19];
    let mut buf = Vec::new();
    let expected_addr = v4([192, 168, 99, 1]);
    write_bgp4mp_message(&mut buf, ts(), 65001, 65000, 0, expected_addr, v4([192, 168, 99, 2]), &bgp_bytes);
    let (record, _) = read_record(&buf).unwrap().unwrap();
    let (hdr, _) = parse_bgp4mp_message(&record.body).unwrap();
    assert_eq!(hdr.peer_addr, expected_addr, "peer addr must survive MRT roundtrip");
}

#[test]
fn test_reader_empty_stream_yields_no_records() {
    let records = MrtReader::new(vec![]).read_all().unwrap();
    assert_eq!(records.len(), 0, "empty stream must yield zero records");
}

#[test]
fn test_five_records_roundtrip() {
    let mut buf = Vec::new();
    for i in 0u32..5 {
        let bgp = vec![i as u8; 19];
        write_bgp4mp_message(&mut buf, ts(), 65001 + i, 65000, 0, v4([10, 0, 0, 1]), v4([10, 0, 0, 2]), &bgp);
    }
    let records = MrtReader::new(buf).read_all().unwrap();
    assert_eq!(records.len(), 5);
    for (i, record) in records.iter().enumerate() {
        let (hdr, _) = parse_bgp4mp_message(&record.body).unwrap();
        assert_eq!(hdr.peer_as, 65001 + i as u32);
    }
}

#[test]
fn truncated_body_is_an_io_error() {
    let mut buf = Vec::new();
    write_bgp4mp_state_change(&mut buf, ts(), 1, 2, v4([1, 1, 1, 1]), v4([2, 2, 2, 2]), BgpState::Idle, BgpState::Connect);
    buf.pop();
    match read_record(&buf) {
        Err(MrtError::Io(m)) => assert_eq!(m, "failed to fill whole buffer"),
        _ => panic!("expected an I/O error"),
    }
    let mut reader = MrtReader::new(buf);
    assert!(matches!(reader.next_record(), Some(Err(_))));
    assert!(reader.next_record().is_none());
}

#[test]
fn short_bgp4mp_body_reports_lengths() {
    match parse_bgp4mp_message(&[0u8; 11]) {
        Err(MrtError::TooShort { need, have }) => {
            assert_eq!(need, 12);
            assert_eq!(have, 11);
        }
        _ => panic!("expected TooShort"),
    }
}

#[test]
fn ipv6_state_change_roundtrip() {
    let mut a = [0u8; 16];
    a[0] = 0x20;
    a[1] = 0x01;
    a[15] = 1;
    let mut b = a;
    b[15] = 2;
    let mut buf = Vec::new();
    write_bgp4mp_state_change(&mut buf, ts(), 7, 8, IpAddress::V6(a), IpAddress::V6(b), BgpState::OpenSent, BgpState::OpenConfirm);
    assert_eq!(buf.len(), 12 + 12 + 32 + 4);
    let (record, n) = read_record(&buf).unwrap().unwrap();
    assert_eq!(n, buf.len());
    let (hdr, old, new) = parse_bgp4mp_state_change(&record.body).unwrap();
    assert_eq!(hdr.local_addr, IpAddress::V6(b));
    assert_eq!((old, new), (4, 5));
}

#[test]
fn epoch_before_1970_is_zero() {
    assert_eq!(epoch_secs(-5), 0);
    assert_eq!(epoch_secs(1_700_000_000), 1_700_000_000);
}

#[test]
fn test_bgp4mp_message_roundtrip_length() {
    let bgp_bytes = vec![0xFFu8; 19 + 10];
    let mut out = Vec::new();
    write_bgp4mp_message(&mut out, ts(), 65001, 65000, 0, v4([10, 0, 0, 1]), v4([10, 0, 0, 2]), &bgp_bytes);
    let expected = 12 + 4 + 4 + 2 + 2 + 4 + 4 + bgp_bytes.len();
    assert_eq!(out.len(), expected);
    let body_len = u32::from_be_bytes([out[8], out[9], out[10], out[11]]);
    assert_eq!(body_len as usize, out.len() - 12);
}

#[test]
fn test_state_change_length() {
    let mut out = Vec::new();
    write_bgp4mp_state_change(&mut out, ts(), 65001, 65000, v4([192, 0, 2, 1]), v4([192, 0, 2, 2]), BgpState::Active, BgpState::Established);
    assert_eq!(out.len(), 12 + 4 + 4 + 2 + 2 + 4 + 4 + 2 + 2);
}

#[test]
fn test_peer_index_table_written() {
    let peers = vec![MrtPeerEntry { bgp_id: [10, 0, 0, 1], addr: v4([10, 0, 0, 1]), peer_as: 65001 }];
    let mut out = Vec::new();
    write_peer_index_table(&mut out, ts(), [0, 0, 0, 0], "", &peers);
    assert!(out.len() > 12, "output should have header + body");
    let mrt_type = u16::from_be_bytes([out[4], out[5]]);
    assert_eq!(mrt_type, MrtType::TableDumpV2.code());
    let subtype = u16::from_be_bytes([out[6], out[7]]);
    assert_eq!(subtype, TableDumpV2Subtype::PeerIndexTable.code());
    // collector id, empty view name, one peer: type 2, id, address, AS
    assert_eq!(&out[12..], &[0, 0, 0, 0, 0, 0, 0, 1, 2, 10, 0, 0, 1, 10, 0, 0, 1, 0, 0, 0xFD, 0xE9]);
}

#[test]
fn test_rib_ipv4_unicast_written() {
    let prefix = Prefix::V4(Ipv4Net { addr: [10, 0, 0, 0], prefix_len: 8 });
    let entries = vec![MrtRibEntry { peer_index: 0, originated: ts(), path_attrs: vec![] }];
    let mut out = Vec::new();
    write_rib_entry(&mut out, ts(), 1, &prefix, &entries);
    assert!(out.len() > 12);
    let subtype = u16::from_be_bytes([out[6], out[7]]);
    assert_eq!(subtype, TableDumpV2Subtype::RibIpv4Unicast.code());
    // sequence 1, prefix 10/8 (one octet), one entry
    assert_eq!(&out[12..19], &[0, 0, 0, 1, 8, 10, 0]);
}
