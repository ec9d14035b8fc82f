use rustybmp::enrichment::netbox::{default_cache_ttl_secs, NetboxDeviceResult, NetboxRef, NetboxTypeRef};
use rustybmp::enrichment::servicenow_cmdb::ChangeRecord;
use rustybmp::enrichment::vault::{copy_entry, CredentialVault, ResolvePurpose, VaultError};
use sha2::{Digest, Sha256};
use rustybmp::kafka::topics::{topic, TOPIC_PEER, TOPIC_UNICAST};

fn temp_vault() -> CredentialVault {
    CredentialVault::new(String::from("test-passphrase-abc123"))
}

#[test]
fn test_round_trip() {
    let mut vault = temp_vault();
    vault.add("router1", "admin", "s3cr3t!", 1_000);
    let cred = vault.resolve("router1", ResolvePurpose::SshFetch, 2_000).unwrap();
    assert_eq!(cred.username, "admin");
    assert_eq!(&*cred.password, "s3cr3t!");
}

#[test]
fn test_wrong_passphrase_rejected() {
    let mut vault = temp_vault();
    vault.add("router2", "op", "pass1", 1_000);
    // tamper with the stored HMAC
    let mut entries: Vec<_> = vault.entries().iter().map(copy_entry).collect();
    for e in entries.iter_mut() {
        if e.alias == "router2" {
            e.hmac = "deadbeef".repeat(8);
        }
    }
    let mut vault = CredentialVault::from_entries(entries, String::from("test-passphrase-abc123"));
    let result = vault.resolve("router2", ResolvePurpose::Test, 2_000);
    assert!(result.is_err(), "should reject wrong HMAC");
}

#[test]
fn test_remove() {
    let mut vault = temp_vault();
    vault.add("router3", "admin", "pw", 1_000);
    vault.remove("router3").unwrap();
    let result = vault.resolve("router3", ResolvePurpose::Internal, 2_000);
    assert!(result.is_err());
}

#[test]
fn test_ssh_fetch_purpose() {
    let mut vault = temp_vault();
    vault.add("pe1", "netops", "bgp123", 1_000);
    let cred = vault.resolve("pe1", ResolvePurpose::SshFetch, 2_000).unwrap();
    assert_eq!(cred.alias, "pe1");
    assert_eq!(&*cred.password, "bgp123");
}

#[test]
fn vault_error_messages() {
    let mut vault = temp_vault();
    let e = vault.remove("ghost").unwrap_err();
    assert_eq!(e.message(), "alias 'ghost' not found");
    let e = vault.resolve("ghost", ResolvePurpose::Test, 0).unwrap_err();
    assert_eq!(e.message(), "credential alias 'ghost' not found");
    assert_eq!(VaultError::HmacMismatch.message(), "HMAC verification failed — vault may be tampered");
    assert_eq!(VaultError::HexDecode.message(), "hex decode: invalid digit found in string");
}

#[test]
fn sealed_password_is_hex_and_not_clear() {
    let mut vault = temp_vault();
    vault.add("r", "u", "abc", 5);
    let e = &vault.entries()[0];
    assert_eq!(e.encrypted_pass.len(), 6);
    assert!(e.encrypted_pass.chars().all(|c| c.is_ascii_hexdigit() && !c.is_ascii_uppercase()));
    assert_ne!(e.encrypted_pass, "616263");
    assert_eq!(e.hmac.len(), 64);
    assert_eq!(e.created_at_ns, 5);
    assert_eq!(e.last_used_at_ns, 0);
}

#[test]
fn add_replaces_existing_alias() {
    let mut vault = temp_vault();
    vault.add("r", "u1", "one", 1);
    vault.add("r", "u2", "two", 2);
    assert_eq!(vault.list().len(), 1);
    let cred = vault.resolve("r", ResolvePurpose::Enrich, 3).unwrap();
    assert_eq!(cred.username, "u2");
    assert_eq!(cred.password, "two");
}

#[test]
fn last_use_is_refreshed_at_most_once_a_minute() {
    let mut vault = temp_vault();
    vault.add("r", "u", "p", 0);
    vault.resolve("r", ResolvePurpose::Test, 100_000_000_000).unwrap();
    assert_eq!(vault.list()[0].last_used_at_ns, 100_000_000_000);
    vault.resolve("r", ResolvePurpose::Test, 130_000_000_000).unwrap();
    assert_eq!(vault.list()[0].last_used_at_ns, 100_000_000_000);
    vault.resolve("r", ResolvePurpose::Test, 161_000_000_000).unwrap();
    assert_eq!(vault.list()[0].last_used_at_ns, 161_000_000_000);
}

fn tag(pass: &str, data: &str) -> String {
    let kh = Sha256::digest(pass.as_bytes());
    let mut h = Sha256::new();
    h.update(&kh);
    h.update(data.as_bytes());
    h.finalize().iter().map(|b| format!("{:02x}", b)).collect()
}

fn vault_with_sealed(text: &str) -> CredentialVault {
    let pass = "test-passphrase-abc123";
    let mut vault = temp_vault();
    vault.add("r", "u", "p", 0);
    let mut es: Vec<_> = vault.entries().iter().map(copy_entry).collect();
    es[0].encrypted_pass = String::from(text);
    es[0].hmac = tag(pass, text);
    CredentialVault::from_entries(es, String::from(pass))
}

#[test]
fn stored_tag_is_sha256_of_key_hash_and_sealed_text() {
    let mut vault = temp_vault();
    vault.add("r", "u", "p", 0);
    let e = &vault.entries()[0];
    assert_eq!(e.hmac, tag("test-passphrase-abc123", &e.encrypted_pass));
}

#[test]
fn bad_hex_is_reported() {
    let mut vault = vault_with_sealed("zz");
    assert!(vault.can_resolve("r"));
    let e = vault.resolve("r", ResolvePurpose::Test, 0).unwrap_err();
    assert!(matches!(e, VaultError::HexDecode));
}

#[test]
fn odd_length_sealed_text_cannot_be_resolved() {
    let mut vault = vault_with_sealed("abc");
    assert!(!vault.can_resolve("r"));
    assert!(vault.resolve_checked("r", ResolvePurpose::Test, 0).is_none());
}

#[test]
fn plus_sign_pair_decodes_as_one_digit() {
    // "+" followed by a digit is read as that digit, as base-16 parsing does
    let mut vault = vault_with_sealed("+0");
    let cred = vault.resolve("r", ResolvePurpose::Test, 0).unwrap();
    // 0x00 XOR 't' (first passphrase byte) = 't'
    assert_eq!(cred.password, "t");
}

#[test]
fn invalid_utf8_after_unsealing_is_reported() {
    // 0xFF XOR 't' = 0x8B: a lone continuation byte
    let mut vault = vault_with_sealed("ff");
    let e = vault.resolve("r", ResolvePurpose::Test, 0).unwrap_err();
    assert!(matches!(e, VaultError::Utf8(_)));
    assert!(e.message().starts_with("decrypt UTF-8 error: "));
}

#[test]
fn resolve_checked_answers_for_a_missing_alias() {
    let mut vault = temp_vault();
    let r = vault.resolve_checked("none", ResolvePurpose::Other(String::from("x")), 0);
    assert!(matches!(r, Some(Err(VaultError::CredentialNotFound(_)))));
}

#[test]
fn device_result_to_device() {
    let result = NetboxDeviceResult {
        name: Some("router-1".into()),
        site: Some(NetboxRef { name: Some("DC1".into()), slug: Some("dc1".into()) }),
        device_role: Some(NetboxRef { name: Some("PE Router".into()), slug: Some("pe-router".into()) }),
        device_type: Some(NetboxTypeRef { model: Some("ASR-9001".into()) }),
    };
    let device = result.to_device();
    assert_eq!(device.hostname, "router-1");
    assert_eq!(device.site, "DC1");
    assert_eq!(device.role, "PE Router");
    assert_eq!(device.model, "ASR-9001");
}

#[test]
fn device_result_handles_missing_fields() {
    let result = NetboxDeviceResult { name: None, site: None, device_role: None, device_type: None };
    let device = result.to_device();
    assert_eq!(device.hostname, "");
    assert_eq!(device.site, "");
}

#[test]
fn default_cache_ttl() {
    assert_eq!(default_cache_ttl_secs(), 900);
}

#[test]
fn change_record_fields() {
    let cr = ChangeRecord {
        number: "CHG0012345".into(),
        short_description: "Planned maintenance".into(),
        state: "2".into(),
        start_date: "2025-06-01 10:00:00".into(),
        end_date: "2025-06-01 14:00:00".into(),
    };
    assert_eq!(cr.number, "CHG0012345");
}

#[test]
fn topic_joins_prefix_and_suffix() {
    assert_eq!(topic("openbmp", TOPIC_PEER), "openbmp.peer");
    assert_eq!(topic("", TOPIC_UNICAST), "unicast_prefix");
}
