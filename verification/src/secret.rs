//! Secrets that are wiped from memory when they are released.

use vstd::prelude::*;
use vstd::slice::slice_to_vec;
use vstd::std_specs::convert::FromSpecImpl;
use vstd::utf8::encode_utf8;
use zeroize::Zeroize;

verus! {

/// Length of a derived key in bytes.
pub const KEY_LEN: usize = 32;

/// Overwrites every byte of a key buffer with zero.
///
/// Calls `zeroize::Zeroize::zeroize` on the array, which writes the default
/// value of `u8` into each element with a volatile store.
#[verifier::external_body]
pub(crate) fn wipe_key_bytes(bytes: &mut [u8; KEY_LEN])
    ensures
        forall|i: int| 0 <= i < KEY_LEN ==> final(bytes)@[i] == 0u8,
    opens_invariants none
    no_unwind
{
    bytes.zeroize();
}

/// Overwrites a byte vector with zeros and empties it.
///
/// Calls `zeroize::Zeroize::zeroize` on the vector, which zeroes the
/// elements and the spare capacity and then clears the vector.
#[verifier::external_body]
pub(crate) fn wipe_byte_vec(bytes: &mut Vec<u8>)
    ensures
        final(bytes)@.len() == 0,
    opens_invariants none
    no_unwind
{
    bytes.zeroize();
}

/// `String::into_bytes` turns a string into its bytes, which are the UTF-8
/// encoding of the text.
pub assume_specification[ String::into_bytes ](s: String) -> (bytes: Vec<u8>)
    ensures
        bytes@ == encode_utf8(s@),
;

/// A derived symmetric key. Its bytes are zeroed when the value is dropped.
pub struct SecretKey {
    bytes: [u8; KEY_LEN],
}

impl View for SecretKey {
    type V = Seq<u8>;

    closed spec fn view(&self) -> Seq<u8> {
        self.bytes@
    }
}

impl SecretKey {
    /// Takes ownership of raw key bytes.
    pub fn from_bytes(bytes: [u8; KEY_LEN]) -> (key: SecretKey)
        ensures
            key@ == bytes@,
    {
        SecretKey { bytes }
    }

    /// The raw key bytes.
    pub fn as_bytes(&self) -> (bytes: &[u8; KEY_LEN])
        ensures
            bytes@ == self@,
    {
        &self.bytes
    }

    /// Zeroes the key in place.
    pub fn wipe(&mut self)
        ensures
            final(self)@ == Seq::new(KEY_LEN as nat, |i: int| 0u8),
        opens_invariants none
        no_unwind
    {
        wipe_key_bytes(&mut self.bytes);
        assert(self.bytes@ =~= Seq::new(KEY_LEN as nat, |i: int| 0u8));
    }
}

impl Drop for SecretKey {
    /// Zeroes the key before its memory is released.
    fn drop(&mut self)
        ensures
            final(self)@ == Seq::new(KEY_LEN as nat, |i: int| 0u8),
        opens_invariants none
        no_unwind
    {
        self.wipe();
    }
}

/// The master password, as bytes. They are zeroed when the value is dropped.
pub struct MasterPassword(pub Vec<u8>);

impl View for MasterPassword {
    type V = Seq<u8>;

    open spec fn view(&self) -> Seq<u8> {
        self.0@
    }
}

impl MasterPassword {
    /// The password of a text: its UTF-8 bytes.
    pub fn from_text(text: &str) -> (password: MasterPassword)
        ensures
            password@ == encode_utf8(text@),
    {
        MasterPassword(slice_to_vec(text.as_bytes()))
    }

    /// The password bytes.
    pub fn as_bytes(&self) -> (bytes: &[u8])
        ensures
            bytes@ == self@,
    {
        self.0.as_slice()
    }

    /// Zeroes the password and empties it.
    pub fn wipe(&mut self)
        ensures
            final(self)@.len() == 0,
        opens_invariants none
        no_unwind
    {
        wipe_byte_vec(&mut self.0);
    }
}

impl From<String> for MasterPassword {
    /// Takes over the buffer of the text, so that wiping the password wipes
    /// the text.
    fn from(s: String) -> (password: MasterPassword)
        ensures
            password@ == encode_utf8(s@),
    {
        MasterPassword(s.into_bytes())
    }
}

/// What `from` gives is stated by its `ensures`: a vector has no value in
/// specifications beyond its view, so `from_spec` names none.
impl FromSpecImpl<String> for MasterPassword {
    open spec fn obeys_from_spec() -> bool {
        false
    }

    open spec fn from_spec(s: String) -> MasterPassword {
        arbitrary()
    }
}

impl<'a> From<&'a str> for MasterPassword {
    fn from(s: &'a str) -> (password: MasterPassword)
        ensures
            password@ == encode_utf8(s@),
    {
        MasterPassword::from_text(s)
    }
}

/// What `from` gives is stated by its `ensures`, as for `String`.
impl<'a> FromSpecImpl<&'a str> for MasterPassword {
    open spec fn obeys_from_spec() -> bool {
        false
    }

    open spec fn from_spec(s: &'a str) -> MasterPassword {
        arbitrary()
    }
}

impl Drop for MasterPassword {
    /// Zeroes the password before its memory is released.
    fn drop(&mut self)
        ensures
            final(self)@.len() == 0,
        opens_invariants none
        no_unwind
    {
        self.wipe();
    }
}

} // verus!
