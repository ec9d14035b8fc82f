use rustybmp::bmp::path_status_tlv::{
    find_path_status_tlv, parse_path_status_tlv, PathStatusTlv, PATH_STATUS_TLV_TYPE, STATUS_NONSELECTED,
};

#[test]
fn test_parse_best_path() {
    let data: &[u8] = &[0x00, 0x00, 0x00, 0x02];
    let tlv = parse_path_status_tlv(data).unwrap();
    assert!(tlv.is_best());
    assert!(!tlv.is_backup());
    assert_eq!(tlv.label(), "best");
    assert_eq!(tlv.reason, 0);
    assert!(tlv.is_active());
}

#[test]
fn test_parse_backup_with_reason() {
    let data: &[u8] = &[0x00, 0x00, 0x00, 0x10, 0x00, 0x06];
    let tlv = parse_path_status_tlv(data).unwrap();
    assert!(tlv.is_backup());
    assert!(!tlv.is_best());
    assert_eq!(tlv.label(), "backup");
    assert_eq!(tlv.reason_label(), "not preferred: MED");
    assert!(!tlv.is_active());
}

#[test]
fn test_parse_filtered_inbound() {
    let data: &[u8] = &[0x00, 0x00, 0x01, 0x00];
    let tlv = parse_path_status_tlv(data).unwrap();
    assert!(tlv.is_filtered_inbound());
    assert_eq!(tlv.label(), "filtered-inbound");
}

#[test]
fn test_parse_multi_bit() {
    let data: &[u8] = &[0x00, 0x00, 0x00, 0x0A];
    let tlv = parse_path_status_tlv(data).unwrap();
    assert!(tlv.is_best());
    assert!(tlv.is_primary());
    assert!(tlv.is_active());
}

#[test]
fn test_parse_too_short() {
    let data: &[u8] = &[0x00, 0x00, 0x00];
    assert!(parse_path_status_tlv(data).is_none());
}

#[test]
fn test_find_in_tlv_stream() {
    let mut stream = vec![];
    stream.extend_from_slice(&[0x00, 0x05, 0x00, 0x02, 0xAA, 0xBB]);
    stream.extend_from_slice(&[0x00, 0x06, 0x00, 0x04, 0x00, 0x00, 0x00, 0x02]);
    stream.extend_from_slice(&[0x00, 0x07, 0x00, 0x00]);
    let tlv = find_path_status_tlv(&stream, PATH_STATUS_TLV_TYPE).unwrap();
    assert!(tlv.is_best());
    assert_eq!(tlv.reason, 0);
}

#[test]
fn test_reason_labels() {
    let codes: &[(u16, &str)] = &[
        (0x0001, "AS loop"),
        (0x0003, "not preferred: LOCAL_PREF"),
        (0x0004, "not preferred: AS_PATH length"),
        (0x0008, "not preferred: IGP cost"),
    ];
    for &(code, expected) in codes {
        let tlv = PathStatusTlv { status: STATUS_NONSELECTED, reason: code };
        assert_eq!(tlv.reason_label(), expected, "code {:#06x}", code);
    }
}

#[test]
fn find_path_status_absent_when_type_missing() {
    let stream = [0x00, 0x05, 0x00, 0x02, 0xAA, 0xBB];
    assert!(find_path_status_tlv(&stream, PATH_STATUS_TLV_TYPE).is_none());
}
