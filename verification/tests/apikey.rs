use dsondt::apikey::{
    accept_keyring_password, api_key_status, decode_key_file, encode_key_file, mask_bytes,
    plan_save_api_key, require_api_key, KeyFileAction, KeyringAction, MASK,
};

#[test]
fn mask_uses_the_repeating_mask() {
    let zeros = vec![0u8; 30];
    let m = mask_bytes(&zeros);
    assert_eq!(&m[..27], &b"DSonDT/v1/local-apikey-mask"[..]);
    assert_eq!(m[27], MASK[0]);
    assert_eq!(m[29], MASK[2]);
}

#[test]
fn mask_twice_gives_data_back() {
    let data = b"sk-1234567890abcdef".to_vec();
    assert_ne!(mask_bytes(&data), data);
    assert_eq!(mask_bytes(&mask_bytes(&data)), data);
}

#[test]
fn key_file_roundtrip() {
    for key in ["sk-abcdef123456", "", "密钥-ключ-🔑"] {
        let bytes = encode_key_file(key);
        assert_eq!(decode_key_file(&bytes), key);
    }
}

#[test]
fn key_file_with_invalid_utf8_reads_as_empty() {
    let raw = mask_bytes(&[0xff, 0xfe]);
    assert_eq!(decode_key_file(&raw), "");
}

#[test]
fn save_plan_trims_and_clears() {
    let plan = plan_save_api_key("  sk-abc  ");
    match (&plan.file, &plan.keyring) {
        (KeyFileAction::Write(b), KeyringAction::Store(p)) => {
            assert_eq!(decode_key_file(b), "sk-abc");
            assert_eq!(p, "sk-abc");
        }
        _ => panic!("expected a write"),
    }
    let plan = plan_save_api_key("   ");
    assert!(matches!(plan.file, KeyFileAction::Remove));
    assert!(matches!(plan.keyring, KeyringAction::Delete));
}

#[test]
fn keyring_password_must_not_be_blank() {
    assert_eq!(accept_keyring_password(Some(" sk-x ".to_string())), Some(" sk-x ".to_string()));
    assert_eq!(accept_keyring_password(Some("  ".to_string())), None);
    assert_eq!(accept_keyring_password(None), None);
}

#[test]
fn status_masks_the_key() {
    let s = api_key_status(true, "sk-abcdefghijklmnwxyz");
    assert!(s.saved && s.in_keyring);
    assert_eq!(s.masked, "sk-abc****wxyz");
    let s = api_key_status(false, "sk-abcdefgh");
    assert_eq!(s.masked, "sk-••••");
    assert!(!s.in_keyring);
    let s = api_key_status(true, "ab");
    assert_eq!(s.masked, "ab••••");
    let s = api_key_status(true, "");
    assert!(!s.saved && !s.in_keyring && s.masked.is_empty());
}

#[test]
fn chat_requires_a_key() {
    assert_eq!(require_api_key(""), Err("未配置 API Key，请在设置中填写".to_string()));
    assert_eq!(require_api_key("sk-1"), Ok(()));
}
