use nocturne_notes::container::{
    EncryptedData, EncryptedHeader, HEADER_LEN, NONCE_LEN, SALT_LEN, TAG_LEN,
};
use nocturne_notes::error::StoreError;

fn sample() -> EncryptedData {
    EncryptedData {
        header: EncryptedHeader { salt: [1u8; 16], nonce: [2u8; 12], tag: [3u8; 16] },
        ciphertext: vec![9, 8, 7, 6, 5],
    }
}

fn counting(len: usize) -> Vec<u8> {
    (0..len).map(|i| (i % 251) as u8).collect()
}

#[test]
fn header_is_44_bytes() {
    assert_eq!(SALT_LEN, 16);
    assert_eq!(NONCE_LEN, 12);
    assert_eq!(TAG_LEN, 16);
    assert_eq!(HEADER_LEN, SALT_LEN + NONCE_LEN + TAG_LEN);
    assert_eq!(HEADER_LEN, 44);
}

#[test]
fn to_bytes_concatenates_fields_in_order() {
    let bytes = sample().to_bytes();
    assert_eq!(bytes.len(), HEADER_LEN + 5);
    assert_eq!(&bytes[0..16], &[1u8; 16]);
    assert_eq!(&bytes[16..28], &[2u8; 12]);
    assert_eq!(&bytes[28..44], &[3u8; 16]);
    assert_eq!(&bytes[44..], &[9, 8, 7, 6, 5]);
}

#[test]
fn from_bytes_splits_at_fixed_offsets() {
    let bytes = counting(60);
    let data = EncryptedData::from_bytes(&bytes).unwrap();
    assert_eq!(&data.header.salt[..], &bytes[0..16]);
    assert_eq!(&data.header.nonce[..], &bytes[16..28]);
    assert_eq!(&data.header.tag[..], &bytes[28..44]);
    assert_eq!(&data.ciphertext[..], &bytes[44..]);
}

#[test]
fn decode_of_encode_is_identity() {
    let container = sample();
    let decoded = EncryptedData::from_bytes(&container.to_bytes()).unwrap();
    assert_eq!(decoded.header.salt, container.header.salt);
    assert_eq!(decoded.header.nonce, container.header.nonce);
    assert_eq!(decoded.header.tag, container.header.tag);
    assert_eq!(decoded.ciphertext, container.ciphertext);
}

#[test]
fn encode_of_decode_is_identity() {
    for len in [44usize, 45, 60, 300] {
        let bytes = counting(len);
        let data = EncryptedData::from_bytes(&bytes).unwrap();
        assert_eq!(data.to_bytes(), bytes);
    }
}

#[test]
fn header_alone_decodes_to_empty_ciphertext() {
    let bytes = counting(44);
    let data = EncryptedData::from_bytes(&bytes).unwrap();
    assert!(data.ciphertext.is_empty());
    assert_eq!(data.to_bytes().len(), 44);
}

#[test]
fn every_short_buffer_is_malformed() {
    for len in 0..44usize {
        let zeros = vec![0u8; len];
        let ones = vec![0xffu8; len];
        let mixed = counting(len);
        for bytes in [zeros, ones, mixed] {
            match EncryptedData::from_bytes(&bytes) {
                Err(e) => assert_eq!(e, StoreError::MalformedContainer),
                Ok(_) => panic!("a buffer of {} bytes decoded", len),
            }
        }
    }
}

#[test]
fn error_messages_are_fixed() {
    assert_eq!(StoreError::MalformedContainer.message(), "Encrypted data is too short");
    assert_eq!(
        StoreError::AuthenticationFailure.message(),
        "Invalid password or corrupted data."
    );
    assert_eq!(StoreError::ApplicationLocked.message(), "Application is locked");
    assert_eq!(StoreError::NotFound.message(), "Note not found");
    assert_eq!(StoreError::KeyDerivationFailure.message(), "Key derivation failed");
    assert_eq!(StoreError::EncryptionFailure.message(), "Encryption failed");
    assert_eq!(StoreError::Io.message(), "File could not be read or written");
    assert_eq!(StoreError::EncodingFailure.message(), "Notes could not be serialized");
    assert_eq!(
        StoreError::DecodingFailure.message(),
        "Decrypted data is not a note collection"
    );
}
