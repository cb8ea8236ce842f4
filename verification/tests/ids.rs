use sha2::{Digest, Sha256};
use ws_ckpt::ids::{
    generate_ws_id_base, strip_trailing_slashes, validate_checkpoint_id_v2,
    validate_workspace_id_v2, ws_id_from_digest, ws_id_with_suffix,
    GUARDED_CHECKPOINT_ID_MAX_BYTES_V2, LIVE_CHILD,
};
use ws_ckpt::index::StringSet;
use ws_ckpt::lifecycle::choose_ws_id;

#[test]
fn v2_workspace_id_validator_requires_canonical_form() {
    for valid in ["ws-012abc", "ws-abcdef-2", "ws-abcdef-42"] {
        assert!(validate_workspace_id_v2(valid).is_ok(), "{valid}");
    }
    for invalid in [
        "abcdef",
        "ws-abcde",
        "ws-ABCDEf",
        "ws-abcdef-0",
        "ws-abcdef-1",
        "ws-abcdef-02",
        "ws-abcdef-2-extra",
    ] {
        assert!(validate_workspace_id_v2(invalid).is_err(), "{invalid}");
    }
}

#[test]
fn workspace_id_faults_are_named() {
    assert_eq!(
        validate_workspace_id_v2("abcdef"),
        Err("workspace id must start with 'ws-'".to_string())
    );
    assert_eq!(
        validate_workspace_id_v2("ws-abcdeg"),
        Err("workspace id hash must be exactly six lowercase hexadecimal characters".to_string())
    );
    for bad in ["ws-abcdef-", "ws-abcdef-+2", "ws-abcdef-18446744073709551616", "ws-abcdef-1"] {
        assert_eq!(
            validate_workspace_id_v2(bad),
            Err("workspace id collision suffix must be a canonical integer of at least 2".to_string()),
            "{bad}"
        );
    }
    assert!(validate_workspace_id_v2("ws-abcdef-18446744073709551615").is_ok());
    assert!(validate_workspace_id_v2("ws-é12345").is_err());
}

#[test]
fn v2_checkpoint_id_validator_accepts_only_safe_non_reserved_components() {
    for valid in ["turn-42", "checkpoint_1", "ckpt.2026"] {
        assert!(validate_checkpoint_id_v2(valid).is_ok(), "{valid}");
    }
    for invalid in ["", ".", "..", LIVE_CHILD, "with space", "../escape", "slash/path"] {
        assert!(validate_checkpoint_id_v2(invalid).is_err(), "{invalid}");
    }
    assert!(validate_checkpoint_id_v2(&"a".repeat(GUARDED_CHECKPOINT_ID_MAX_BYTES_V2)).is_ok());
    assert!(
        validate_checkpoint_id_v2(&"a".repeat(GUARDED_CHECKPOINT_ID_MAX_BYTES_V2 + 1)).is_err()
    );
}

#[test]
fn checkpoint_id_faults_come_in_order() {
    let fault = |s: &str| validate_checkpoint_id_v2(s).unwrap_err();
    assert_eq!(fault(""), "checkpoint id must not be empty");
    assert_eq!(fault("__live__"), "checkpoint id is reserved for the live workspace marker");
    assert_eq!(fault(&"é".repeat(65)), "checkpoint id exceeds 128 bytes");
    assert_eq!(fault(".."), "checkpoint id must not be '.' or '..'");
    assert_eq!(
        fault("é"),
        "checkpoint id may contain only ASCII letters, digits, '-', '_', and '.'"
    );
}

#[test]
fn strip_trailing_slashes_preserves_empty_and_root() {
    assert_eq!(strip_trailing_slashes(""), "");
    assert_eq!(strip_trailing_slashes("/"), "/");
    assert_eq!(strip_trailing_slashes("///"), "/");
    assert_eq!(strip_trailing_slashes("/foo/"), "/foo");
    assert_eq!(strip_trailing_slashes("/foo"), "/foo");
    assert_eq!(strip_trailing_slashes("foo/"), "foo");
}

#[test]
fn stripping_twice_changes_nothing() {
    for s in ["", "/", "//", "/a//", "a/b/"] {
        let once = strip_trailing_slashes(s);
        assert_eq!(strip_trailing_slashes(&once), once);
    }
}

#[test]
fn ws_id_format_is_workspace_dash_6hex() {
    let id = generate_ws_id_base("/home/user/project");
    assert!(id.starts_with("ws-"), "ws-id should start with 'ws-'");
    let hash_part = id.strip_prefix("ws-").unwrap();
    assert_eq!(hash_part.len(), 6, "hash part should be 6 hex chars (3 bytes)");
    assert!(
        hash_part.chars().all(|c| c.is_ascii_hexdigit()),
        "hash part should be valid hex"
    );
}

#[test]
fn ws_id_same_path_produces_same_id() {
    let id1 = generate_ws_id_base("/home/user/project");
    let id2 = generate_ws_id_base("/home/user/project");
    assert_eq!(id1, id2);
}

#[test]
fn ws_id_different_paths_produce_different_ids() {
    let id1 = generate_ws_id_base("/home/user/project-a");
    let id2 = generate_ws_id_base("/home/user/project-b");
    assert_ne!(id1, id2);
}

#[test]
fn ws_id_hash_matches_sha256_first_3_bytes() {
    let path = "/some/test/path";
    let expected_hash = hex::encode(&Sha256::digest(path.as_bytes())[..3]);
    let id = generate_ws_id_base(path);
    assert_eq!(id, format!("ws-{}", expected_hash));
}

#[test]
fn ws_id_collision_suffix_format() {
    let base = generate_ws_id_base("/some/path");
    let suffixed_2 = ws_id_with_suffix(&base, 2);
    let suffixed_3 = ws_id_with_suffix(&base, 3);
    assert_eq!(suffixed_2, format!("{}-2", base));
    assert!(suffixed_2.starts_with("ws-"));
    assert!(suffixed_2.ends_with("-2"));
    assert!(suffixed_3.ends_with("-3"));
    assert_eq!(ws_id_with_suffix(&base, 1), base);
    assert!(validate_workspace_id_v2(&suffixed_2).is_ok());
}

#[test]
fn ws_id_empty_path() {
    let id = generate_ws_id_base("");
    assert!(id.starts_with("ws-"));
    let hash_part = id.strip_prefix("ws-").unwrap();
    assert_eq!(hash_part.len(), 6);
}

#[test]
fn ws_id_special_characters_in_path() {
    let id = generate_ws_id_base("/home/user/my project (2)/src");
    assert!(id.starts_with("ws-"));
    let hash_part = id.strip_prefix("ws-").unwrap();
    assert_eq!(hash_part.len(), 6);
    assert!(hash_part.chars().all(|c| c.is_ascii_hexdigit()));
}

#[test]
fn ws_id_very_long_path() {
    let long_path = format!("/home/{}", "a".repeat(1000));
    let id = generate_ws_id_base(&long_path);
    assert!(id.starts_with("ws-"));
    let hash_part = id.strip_prefix("ws-").unwrap();
    assert_eq!(hash_part.len(), 6);
}

#[test]
fn ws_id_unicode_path() {
    let id = generate_ws_id_base("/home/用户/项目");
    assert!(id.starts_with("ws-"));
    let hash_part = id.strip_prefix("ws-").unwrap();
    assert_eq!(hash_part.len(), 6);
    assert!(hash_part.chars().all(|c| c.is_ascii_hexdigit()));
}

#[test]
fn ws_id_of_a_known_digest() {
    assert_eq!(ws_id_from_digest(&vec![0x01, 0xab, 0xff, 0x77]), "ws-01abff");
}

#[test]
fn ws_id_takes_the_first_free_suffix() {
    let base = generate_ws_id_base("/some/path");
    let mut occupied = StringSet::new();
    assert_eq!(choose_ws_id("/some/path", &occupied), base);
    occupied.insert(base.clone(), ());
    assert_eq!(choose_ws_id("/some/path", &occupied), format!("{base}-2"));
    occupied.insert(format!("{base}-2"), ());
    occupied.insert(format!("{base}-4"), ());
    assert_eq!(choose_ws_id("/some/path", &occupied), format!("{base}-3"));
}
