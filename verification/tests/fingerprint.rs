use streamctl::config::{SourceConfig, SourceKind};

fn test_config(id: u8) -> SourceConfig {
    SourceConfig { id, kind: SourceKind::Test }
}

fn uri_config(id: u8, uri: &str) -> SourceConfig {
    SourceConfig {
        id,
        kind: SourceKind::Uri { uri: uri.to_string(), username: None, password: None },
    }
}

#[test]
fn fingerprint_of_test_source() {
    // FNV-1a 64 over the canonical encoding [0x01, 0x00]
    assert_eq!(test_config(1).get_hash(), 0x082f_2207_b4e8_8cc4);
}

#[test]
fn fingerprint_of_uri_source() {
    // FNV-1a 64 over [0x02, 0x01] ++ "test://x" ++ [0, 0, 0]
    assert_eq!(uri_config(2, "test://x").get_hash(), 0x1319_ef46_2042_8a84);
}

#[test]
fn fingerprint_with_credentials() {
    let c = SourceConfig {
        id: 1,
        kind: SourceKind::Uri {
            uri: "a".to_string(),
            username: Some("u".to_string()),
            password: None,
        },
    };
    assert_eq!(c.get_hash(), 0x79d8_8a6d_fb90_d4b0);
}

#[test]
fn equal_configs_have_equal_fingerprints() {
    assert_eq!(test_config(7).get_hash(), test_config(7).get_hash());
    assert_eq!(uri_config(3, "rtsp://cam").get_hash(), uri_config(3, "rtsp://cam").get_hash());
}

#[test]
fn changed_fields_change_the_fingerprint() {
    assert_ne!(test_config(1).get_hash(), test_config(2).get_hash());
    assert_ne!(uri_config(1, "test://x").get_hash(), test_config(1).get_hash());
    assert_ne!(uri_config(1, "test://x").get_hash(), uri_config(1, "test://y").get_hash());
    // the same fields in a different kind hash differently
    let rtsp = SourceConfig {
        id: 1,
        kind: SourceKind::Rtsp { uri: "test://x".to_string(), username: None, password: None },
    };
    assert_ne!(rtsp.get_hash(), uri_config(1, "test://x").get_hash());
}

#[test]
fn credential_presence_changes_the_fingerprint() {
    let without = SourceConfig {
        id: 1,
        kind: SourceKind::Rtsp { uri: "r".to_string(), username: None, password: None },
    };
    let with = SourceConfig {
        id: 1,
        kind: SourceKind::Rtsp {
            uri: "r".to_string(),
            username: Some("admin".to_string()),
            password: Some("secret".to_string()),
        },
    };
    assert_ne!(without.get_hash(), with.get_hash());
}
