use rusty_pdf::encryption_ops::{
    bytes_to_pdf_hex_string, compute_data_hash, compute_encryption_key, compute_encryption_values,
    compute_o_value, compute_u_value, get_id_bytes, pad_password, rc4, EncryptionConfig, Permissions,
    PDF_PASSWORD_PADDING,
};
use rusty_pdf::file_identifier::FileIdentifierMode;
use rusty_pdf::object::Object;

#[test]
fn pad_empty_password_is_padding_string() {
    let padded = pad_password(b"");
    assert_eq!(padded, PDF_PASSWORD_PADDING);
}

#[test]
fn pad_short_password() {
    let padded = pad_password(b"abc");
    assert_eq!(&padded[..3], b"abc");
    assert_eq!(&padded[3..], &PDF_PASSWORD_PADDING[..29]);
}

#[test]
fn pad_exact_32_bytes() {
    let pwd = [b'X'; 32];
    let padded = pad_password(&pwd);
    assert_eq!(padded, pwd);
}

#[test]
fn pad_long_password_truncated() {
    let pwd = [b'A'; 64];
    let padded = pad_password(&pwd);
    assert_eq!(padded, [b'A'; 32]);
}

#[test]
fn rc4_roundtrip() {
    let key = b"hello";
    let plaintext = b"some secret data to encrypt";
    let ciphertext = rc4(key, plaintext);
    let decrypted = rc4(key, &ciphertext);
    assert_eq!(decrypted, plaintext);
}

#[test]
fn o_value_is_32_bytes() {
    let o = compute_o_value(b"owner", b"user");
    assert_eq!(o.len(), 32);
}

#[test]
fn u_value_is_32_bytes() {
    let o = compute_o_value(b"", b"");
    let key = compute_encryption_key(b"", &o, -4, b"fileid");
    let u = compute_u_value(&key);
    assert_eq!(u.len(), 32);
}

#[test]
fn permissions_new_denies_all() {
    let p = Permissions::new().as_i32();
    assert_eq!(p & (1 << 2), 0);
    assert_eq!(p & (1 << 3), 0);
    assert_eq!(p & (1 << 4), 0);
    assert_eq!(p & (1 << 5), 0);
}

#[test]
fn permissions_selective() {
    let p = Permissions { print: true, ..Permissions::new() }.as_i32();
    assert_ne!(p & (1 << 2), 0);
    assert_eq!(p & (1 << 3), 0);
    assert_eq!(p & (1 << 4), 0);
    assert_eq!(p & (1 << 5), 0);
}

#[test]
fn compute_values_returns_consistent_lengths() {
    let config = EncryptionConfig::new();
    let vals = compute_encryption_values(&config, b"test-file-id");
    assert_eq!(vals.o_value.len(), 32);
    assert_eq!(vals.u_value.len(), 32);
    assert_eq!(vals.encryption_key.len(), 5);
}

#[test]
fn hex_string_format() {
    let hex = bytes_to_pdf_hex_string(&[0x4F, 0x00, 0xFF]);
    assert_eq!(hex, "<4F00FF>");
}

#[test]
fn permissions_values() {
    assert_eq!(Permissions::new().as_i32(), -64);
    let all = Permissions { print: true, modify: true, copy: true, annotate: true };
    assert_eq!(all.as_i32(), -4);
    let print_only = Permissions { print: true, ..Permissions::new() };
    assert_eq!(print_only.as_i32(), -60);
}

#[test]
fn rc4_known_vector() {
    let out = rc4(b"Key", b"Plaintext");
    assert_eq!(out, vec![0xBB, 0xF3, 0x16, 0xE8, 0xD9, 0x40, 0xAF, 0x0A, 0xD3]);
}

#[test]
fn rc4_twice_is_identity_for_other_key() {
    let data: Vec<u8> = (0u8..200).collect();
    let once = rc4(b"another key", &data);
    assert_ne!(once, data);
    assert_eq!(rc4(b"another key", &once), data);
}

#[test]
fn rc4_empty_data() {
    assert_eq!(rc4(b"k", b""), Vec::<u8>::new());
}

#[test]
fn data_hash_is_md5_of_nothing() {
    let objects: Vec<Object> = vec![Object::new()];
    let (hex, bytes) = compute_data_hash(&objects);
    assert_eq!(hex, "d41d8cd98f00b204e9800998ecf8427e");
    assert_eq!(bytes, b"d41d8cd98f00b204e9800998ecf8427e".to_vec());
}

#[test]
fn id_bytes_by_mode() {
    let hash = b"abc";
    let custom = FileIdentifierMode::Custom(vec![1, 2, 3, 4]);
    assert_eq!(get_id_bytes(&custom, hash), &[1, 2, 3, 4]);
    assert_eq!(get_id_bytes(&FileIdentifierMode::ContentHash, hash), b"abc");
}

#[test]
fn o_value_empty_owner_uses_user_password() {
    assert_eq!(compute_o_value(b"", b"user"), compute_o_value(b"user", b"user"));
    assert_ne!(compute_o_value(b"owner", b"user"), compute_o_value(b"user", b"user"));
}

#[test]
fn encryption_values_agree_with_steps() {
    let config = EncryptionConfig::new()
        .with_owner_password("owner")
        .with_user_password("user")
        .with_permissions(Permissions { print: true, ..Permissions::new() });
    let vals = compute_encryption_values(&config, b"id");
    let o = compute_o_value(b"owner", b"user");
    let key = compute_encryption_key(b"user", &o, -60, b"id");
    assert_eq!(vals.permissions, -60);
    assert_eq!(vals.o_value, o);
    assert_eq!(vals.encryption_key, key);
    assert_eq!(vals.u_value, compute_u_value(&key));
}

#[test]
fn u_value_is_rc4_of_padding() {
    let key = [1u8, 2, 3, 4, 5];
    let u = compute_u_value(&key);
    assert_eq!(u.to_vec(), rc4(&key, &PDF_PASSWORD_PADDING));
}
