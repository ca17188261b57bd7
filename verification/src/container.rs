//! The encrypted container: a fixed header of salt, nonce and tag, followed
//! by the ciphertext.

use vstd::prelude::*;
use crate::error::StoreError;

verus! {

/// Length of the key-derivation salt in bytes.
pub const SALT_LEN: usize = 16;

/// Length of the cipher nonce in bytes.
pub const NONCE_LEN: usize = 12;

/// Length of the authentication tag in bytes.
pub const TAG_LEN: usize = 16;

/// Length of the header: salt, nonce and tag together.
pub const HEADER_LEN: usize = 44;

/// The fixed-width fields in front of the ciphertext.
#[derive(Debug)]
pub struct EncryptedHeader {
    pub salt: [u8; SALT_LEN],
    pub nonce: [u8; NONCE_LEN],
    pub tag: [u8; TAG_LEN],
}

/// A container as it lies on disk: header and ciphertext.
pub struct EncryptedData {
    pub header: EncryptedHeader,
    pub ciphertext: Vec<u8>,
}

/// The mathematical content of a container.
pub struct ContainerView {
    pub salt: Seq<u8>,
    pub nonce: Seq<u8>,
    pub tag: Seq<u8>,
    pub ciphertext: Seq<u8>,
}

impl ContainerView {
    /// The three header fields have their fixed widths.
    pub open spec fn well_formed(self) -> bool {
        &&& self.salt.len() == SALT_LEN
        &&& self.nonce.len() == NONCE_LEN
        &&& self.tag.len() == TAG_LEN
    }
}

impl View for EncryptedData {
    type V = ContainerView;

    open spec fn view(&self) -> ContainerView {
        ContainerView {
            salt: self.header.salt@,
            nonce: self.header.nonce@,
            tag: self.header.tag@,
            ciphertext: self.ciphertext@,
        }
    }
}

/// The byte layout of a container: salt, nonce, tag, ciphertext, in that order.
pub open spec fn spec_encode(c: ContainerView) -> Seq<u8> {
    c.salt + c.nonce + c.tag + c.ciphertext
}

/// Splits bytes into a container, or reports them as too short to hold a header.
pub open spec fn spec_decode(bytes: Seq<u8>) -> Result<ContainerView, StoreError> {
    if bytes.len() < HEADER_LEN {
        Err(StoreError::MalformedContainer)
    } else {
        Ok(
            ContainerView {
                salt: bytes.subrange(0, 16),
                nonce: bytes.subrange(16, 28),
                tag: bytes.subrange(28, 44),
                ciphertext: bytes.subrange(44, bytes.len() as int),
            },
        )
    }
}

/// Decoding an encoded container gives the container back.
pub proof fn lemma_decode_encode(c: ContainerView)
    requires
        c.well_formed(),
    ensures
        spec_decode(spec_encode(c)) == Ok::<ContainerView, StoreError>(c),
{
    let bytes = spec_encode(c);
    assert(bytes.len() == 44 + c.ciphertext.len());
    assert(bytes.subrange(0, 16) =~= c.salt);
    assert(bytes.subrange(16, 28) =~= c.nonce);
    assert(bytes.subrange(28, 44) =~= c.tag);
    assert(bytes.subrange(44, bytes.len() as int) =~= c.ciphertext);
}

/// Encoding a decoded buffer gives the buffer back: the split loses nothing.
pub proof fn lemma_encode_decode(bytes: Seq<u8>)
    requires
        bytes.len() >= HEADER_LEN,
    ensures
        spec_decode(bytes) is Ok,
        spec_decode(bytes)->Ok_0.well_formed(),
        spec_encode(spec_decode(bytes)->Ok_0) == bytes,
{
    let c = spec_decode(bytes)->Ok_0;
    assert(spec_encode(c) =~= bytes);
}

/// Any buffer shorter than the header is malformed, whatever it holds.
pub proof fn lemma_short_buffer_is_malformed(bytes: Seq<u8>)
    requires
        bytes.len() < HEADER_LEN,
    ensures
        spec_decode(bytes) == Err::<ContainerView, StoreError>(StoreError::MalformedContainer),
{
}

impl EncryptedData {
    /// Lays the container out as bytes: salt, nonce, tag, then the ciphertext.
    pub fn to_bytes(&self) -> (bytes: Vec<u8>)
        ensures
            bytes@ == spec_encode(self@),
            bytes@.len() == HEADER_LEN + self.ciphertext@.len(),
    {
        let mut bytes: Vec<u8> = Vec::new();
        let mut i: usize = 0;
        while i < SALT_LEN
            invariant
                i <= SALT_LEN,
                bytes@ == self.header.salt@.subrange(0, i as int),
            decreases SALT_LEN - i,
        {
            bytes.push(self.header.salt[i]);
            i += 1;
        }
        assert(bytes@ == self.header.salt@);
        i = 0;
        while i < NONCE_LEN
            invariant
                i <= NONCE_LEN,
                bytes@ == self.header.salt@ + self.header.nonce@.subrange(0, i as int),
            decreases NONCE_LEN - i,
        {
            bytes.push(self.header.nonce[i]);
            i += 1;
        }
        assert(bytes@ == self.header.salt@ + self.header.nonce@);
        i = 0;
        while i < TAG_LEN
            invariant
                i <= TAG_LEN,
                bytes@ == self.header.salt@ + self.header.nonce@ + self.header.tag@.subrange(
                    0,
                    i as int,
                ),
            decreases TAG_LEN - i,
        {
            bytes.push(self.header.tag[i]);
            i += 1;
        }
        assert(bytes@ == self.header.salt@ + self.header.nonce@ + self.header.tag@);
        i = 0;
        while i < self.ciphertext.len()
            invariant
                i <= self.ciphertext.len(),
                bytes@ == self.header.salt@ + self.header.nonce@ + self.header.tag@
                    + self.ciphertext@.subrange(0, i as int),
            decreases self.ciphertext.len() - i,
        {
            bytes.push(self.ciphertext[i]);
            i += 1;
        }
        assert(self.ciphertext@.subrange(0, i as int) == self.ciphertext@);
        bytes
    }

    /// Splits bytes into header and ciphertext. Fails exactly when the bytes
    /// are shorter than the header; nothing else is checked here.
    pub fn from_bytes(bytes: &[u8]) -> (result: Result<EncryptedData, StoreError>)
        ensures
            result is Ok <==> bytes@.len() >= HEADER_LEN,
            result matches Ok(data) ==> spec_decode(bytes@) == Ok::<ContainerView, StoreError>(
                data@,
            ),
            result matches Err(e) ==> e == StoreError::MalformedContainer,
    {
        if bytes.len() < HEADER_LEN {
            return Err(StoreError::MalformedContainer);
        }
        let mut salt = [0u8; SALT_LEN];
        let mut nonce = [0u8; NONCE_LEN];
        let mut tag = [0u8; TAG_LEN];
        let mut i: usize = 0;
        while i < SALT_LEN
            invariant
                i <= SALT_LEN,
                bytes@.len() >= HEADER_LEN,
                forall|k: int| 0 <= k < i ==> salt@[k] == bytes@[k],
            decreases SALT_LEN - i,
        {
            salt[i] = bytes[i];
            i += 1;
        }
        i = 0;
        while i < NONCE_LEN
            invariant
                i <= NONCE_LEN,
                bytes@.len() >= HEADER_LEN,
                forall|k: int| 0 <= k < i ==> nonce@[k] == bytes@[16 + k],
            decreases NONCE_LEN - i,
        {
            nonce[i] = bytes[SALT_LEN + i];
            i += 1;
        }
        i = 0;
        while i < TAG_LEN
            invariant
                i <= TAG_LEN,
                bytes@.len() >= HEADER_LEN,
                forall|k: int| 0 <= k < i ==> tag@[k] == bytes@[28 + k],
            decreases TAG_LEN - i,
        {
            tag[i] = bytes[SALT_LEN + NONCE_LEN + i];
            i += 1;
        }
        let mut ciphertext: Vec<u8> = Vec::new();
        i = HEADER_LEN;
        while i < bytes.len()
            invariant
                HEADER_LEN <= i <= bytes@.len(),
                ciphertext@ == bytes@.subrange(44, i as int),
            decreases bytes.len() - i,
        {
            ciphertext.push(bytes[i]);
            i += 1;
        }
        let data = EncryptedData { header: EncryptedHeader { salt, nonce, tag }, ciphertext };
        proof {
            let c = spec_decode(bytes@)->Ok_0;
            assert(data@.salt =~= c.salt);
            assert(data@.nonce =~= c.nonce);
            assert(data@.tag =~= c.tag);
            assert(data@.ciphertext =~= c.ciphertext);
        }
        Ok(data)
    }
}

} // verus!
