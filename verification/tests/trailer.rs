use rusty_pdf::encryption_ops::{bytes_to_pdf_hex_string, compute_encryption_values, EncryptionConfig};
use rusty_pdf::error::PdfError;
use rusty_pdf::object_number::ObjectNumber;
use rusty_pdf::trailer::Trailer;
use rusty_pdf::version::Version;

const EMPTY_MD5_HEX: &str = "d41d8cd98f00b204e9800998ecf8427e";

#[test]
fn trailer_size_and_root() {
    let trailer = Trailer::new(ObjectNumber::new(6), ObjectNumber::new(1)).unwrap();
    let mut file = b"xref".to_vec();
    trailer.serialize(Version::default(), 1234, &mut file).unwrap();
    assert_eq!(
        String::from_utf8(file).unwrap(),
        "xref\ntrailer\n <<\n/Size 7\n/Root 1 0 R\n>>\nstartxref\n1234\n%%EOF\n"
    );
}

#[test]
fn encrypted_trailer_entries() {
    let config = EncryptionConfig::new().with_owner_password("owner").with_user_password("user");
    let mut trailer = Trailer::new(ObjectNumber::new(3), ObjectNumber::new(1)).unwrap();
    trailer.encrypted(&config).unwrap();
    let mut file = Vec::new();
    trailer.serialize(Version::default(), 99, &mut file).unwrap();

    let vals = compute_encryption_values(&config, EMPTY_MD5_HEX.as_bytes());
    let id = bytes_to_pdf_hex_string(EMPTY_MD5_HEX.as_bytes());
    let expected = format!(
        "\ntrailer\n <<\n/Size 4\n/Root 1 0 R\n/Encrypt  <<\n/Filter /Standard\n/V 1\n/R 2\n/O {}\n/U {}\n/P -64\n>>\n\n/ID [ {id} {id} ]\n>>\nstartxref\n99\n%%EOF\n",
        bytes_to_pdf_hex_string(&vals.o_value),
        bytes_to_pdf_hex_string(&vals.u_value),
    );
    assert_eq!(String::from_utf8(file).unwrap(), expected);
    assert!(id.starts_with("<6434316438"));
    assert_eq!(id.len(), 66);
}

#[test]
fn encrypting_twice_is_refused() {
    let config = EncryptionConfig::new();
    let mut trailer = Trailer::new(ObjectNumber::new(1), ObjectNumber::new(1)).unwrap();
    assert!(trailer.encrypted(&config).is_ok());
    match trailer.encrypted(&config) {
        Err(PdfError::StructureError(m)) => assert_eq!(m, "Key 'Encrypt' already exists"),
        _ => panic!("a second /Encrypt was accepted"),
    }
}
