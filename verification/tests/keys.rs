use restaapp_printer::secure::{
    is_maskable, key_to_protect, mask_key, protected_key_text, read_stored_key, KeyToProtect,
    StoredKey,
};

#[test]
fn masks_show_three_and_three() {
    assert_eq!(mask_key("  abcdef123456  "), "abc…456");
    assert_eq!(mask_key("abcdefg"), "abc…efg");
    assert_eq!(mask_key("abcdef"), "****");
    assert_eq!(mask_key(""), "****");
    assert_eq!(mask_key("ñañ"), "****");
}

#[test]
fn maskable_keys() {
    assert!(is_maskable("abcdef123456"));
    assert!(is_maskable("abc"));
    // 'é' is two bytes and straddles byte 3
    assert!(!is_maskable("aaéaaaaaa"));
}

#[test]
fn long_key_never_in_its_mask() {
    let key = "0123456789abcdef";
    assert!(!mask_key(key).contains(key));
}

#[test]
fn seven_byte_key_not_in_its_mask() {
    let key = "abcdefg";
    let mask = mask_key(key);
    assert_eq!(mask.len(), 9);
    assert!(!mask.contains(key));
}

#[test]
fn keys_to_protect() {
    assert!(matches!(key_to_protect("   "), KeyToProtect::Blank));
    match key_to_protect("ñ1") {
        KeyToProtect::Bytes(b) => assert_eq!(b, "ñ1".as_bytes()),
        KeyToProtect::Blank => panic!("not blank"),
    }
}

#[test]
fn protected_key_text_and_back() {
    let text = protected_key_text(b"hello");
    assert_eq!(text, "dpapi:aGVsbG8=");
    match read_stored_key(&text).unwrap() {
        StoredKey::Sealed(bytes) => assert_eq!(bytes, b"hello"),
        other => panic!("unexpected {other:?}"),
    }
}

#[test]
fn stored_key_kinds() {
    assert!(matches!(read_stored_key(" \t").unwrap(), StoredKey::Empty));
    match read_stored_key("legacy-plain").unwrap() {
        StoredKey::Plain(s) => assert_eq!(s, "legacy-plain"),
        other => panic!("unexpected {other:?}"),
    }
    assert_eq!(
        read_stored_key("dpapi:@@@").unwrap_err(),
        "La clave protegida no es válida"
    );
}
