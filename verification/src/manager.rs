//! The store manager: a locked or unlocked session over one note collection.
//!
//! The manager decides and computes; it never reads or writes a file. Its
//! caller reads the store file and hands over what it found, and writes the
//! bytes that an operation returns. A store starts locked, is unlocked
//! once, and stays unlocked.

use vstd::prelude::*;
use crate::codec::{
    bincode_encoding, decode_notes, empty_encoding, encode_notes, spec_decode_notes,
};
use crate::collection::{
    contains_id, lemma_index_of_id, lemma_merge, merge, sort_desc, sorted_desc,
};
use crate::container::{
    lemma_decode_encode, spec_decode, EncryptedData, HEADER_LEN, SALT_LEN,
};
use crate::crypto::{
    argon2id_key, decrypt, derive_key, encrypt, generate_test_key, is_sealing_of, spec_decrypt,
    spec_derive_key, MAX_PASSWORD_LEN, MAX_PLAINTEXT_LEN,
};
use crate::data::{
    all_valid, notes_view, spec_created, spec_delete, spec_find, spec_note_text, spec_update, Note,
    NoteList, NoteView,
};
use crate::error::{fails_with, StoreError};
use crate::secret::{MasterPassword, SecretKey};
use crate::timestamp::Timestamp;

verus! {

/// The key material of a session, as mathematics.
pub struct SessionView {
    pub key: Seq<u8>,
    pub salt: Seq<u8>,
}

/// The state of a store, as mathematics: locked without a session, or
/// unlocked with one, and the notes.
pub struct StoreView {
    pub session: Option<SessionView>,
    pub notes: Seq<NoteView>,
}

/// What a file that opened holds: the key derived for it, its salt, its notes.
pub struct OpenedStore {
    pub key: Seq<u8>,
    pub salt: Seq<u8>,
    pub notes: Seq<NoteView>,
}

/// What reading a file gave.
pub enum StoreFile {
    /// There is no such file.
    Missing,
    /// The file is there but could not be read.
    Unreadable,
    /// The bytes of the file.
    Found(Vec<u8>),
}

/// The derived key and the salt it was derived from.
pub struct Session {
    key: SecretKey,
    salt: [u8; SALT_LEN],
}

impl View for Session {
    type V = SessionView;

    closed spec fn view(&self) -> SessionView {
        SessionView { key: self.key@, salt: self.salt@ }
    }
}

/// Bytes are the image of a store when they decode to a container that
/// carries the session's salt and seals the encoding of the notes under
/// the session's key.
pub open spec fn is_store_image(bytes: Seq<u8>, session: SessionView, notes: Seq<NoteView>)
    -> bool {
    &&& spec_decode(bytes) is Ok
    &&& spec_decode(bytes)->Ok_0.salt == session.salt
    &&& is_sealing_of(spec_decode(bytes)->Ok_0, session.key, bincode_encoding(notes))
}

/// What opening a file with a password gives: the container is split, the
/// key derived from the password and the container's own salt, the
/// ciphertext authenticated and decrypted, the plaintext decoded. The first
/// step that fails gives the error.
pub open spec fn spec_open_store(password: Seq<u8>, bytes: Seq<u8>) -> Result<
    OpenedStore,
    StoreError,
> {
    match spec_decode(bytes) {
        Err(e) => Err(e),
        Ok(container) => match spec_derive_key(password, container.salt) {
            Err(e) => Err(e),
            Ok(key) => match spec_decrypt(key, container) {
                Err(e) => Err(e),
                Ok(plaintext) => match spec_decode_notes(plaintext) {
                    Err(e) => Err(e),
                    Ok(notes) => Ok(OpenedStore { key, salt: container.salt, notes }),
                },
            },
        },
    }
}

/// A file opens to a session and notes with a password when it is an
/// image of the notes under the session, and the password derives the
/// session's key from the session's salt.
pub open spec fn opens_to(
    password: Seq<u8>,
    bytes: Seq<u8>,
    session: SessionView,
    notes: Seq<NoteView>,
) -> bool {
    &&& is_store_image(bytes, session, notes)
    &&& all_valid(notes)
    &&& spec_derive_key(password, session.salt) == Ok::<Seq<u8>, StoreError>(session.key)
}

/// The notes can be saved: their encoding is within the cipher's limit.
pub open spec fn can_save(notes: Seq<NoteView>) -> bool {
    bincode_encoding(notes).len() <= MAX_PLAINTEXT_LEN
}

/// The one way a save of the given notes fails: in the cipher, when the
/// encoding of the notes is beyond its limit.
pub open spec fn is_save_failure(error: StoreError, notes: Seq<NoteView>) -> bool {
    error == StoreError::EncryptionFailure && !can_save(notes)
}

/// How the result of a save relates to the state that was saved. The save
/// succeeds exactly when the notes can be saved. The bytes are then an
/// image of the state under its session: the header and, as long as the
/// encoding of the notes, the ciphertext.
pub open spec fn save_outcome(result: Result<Vec<u8>, StoreError>, state: StoreView) -> bool {
    &&& result is Ok <==> can_save(state.notes)
    &&& match result {
        Ok(bytes) => state.session is Some && all_valid(state.notes) && is_store_image(
            bytes@,
            state.session->Some_0,
            state.notes,
        ) && bytes@.len() == HEADER_LEN + bincode_encoding(state.notes).len(),
        Err(e) => is_save_failure(e, state.notes),
    }
}

/// The state after a note was created at `now`.
pub open spec fn spec_after_create(
    pre: StoreView,
    title: Seq<char>,
    content: Seq<char>,
    now: Timestamp,
) -> StoreView {
    StoreView {
        session: pre.session,
        notes: sort_desc(pre.notes.push(spec_created(title, content, now))),
    }
}

/// The state after the note with the given id was updated at `now`.
pub open spec fn spec_after_update(
    pre: StoreView,
    id: u64,
    title: Seq<char>,
    content: Seq<char>,
    now: Timestamp,
) -> StoreView {
    StoreView { session: pre.session, notes: spec_update(pre.notes, id, title, content, now) }
}

/// The state after the notes with the given id were deleted.
pub open spec fn spec_after_delete(pre: StoreView, id: u64) -> StoreView {
    StoreView { session: pre.session, notes: spec_delete(pre.notes, id) }
}

/// The state after the notes of an opened file were merged in.
pub open spec fn spec_after_import(pre: StoreView, incoming: Seq<NoteView>) -> StoreView {
    StoreView { session: pre.session, notes: merge(pre.notes, incoming) }
}

/// The state after a file was opened: unlocked, with the file's key
/// material and notes.
pub open spec fn spec_after_open(opened: OpenedStore) -> StoreView {
    StoreView {
        session: Some(SessionView { key: opened.key, salt: opened.salt }),
        notes: opened.notes,
    }
}

/// Seals a plaintext under a session and lays the container out as bytes.
///
/// Fails exactly when the plaintext is longer than `MAX_PLAINTEXT_LEN`.
pub fn seal_image(session: &Session, plaintext: &[u8]) -> (result: Result<Vec<u8>, StoreError>)
    ensures
        result is Ok <==> plaintext@.len() <= MAX_PLAINTEXT_LEN,
        result matches Ok(bytes) ==> spec_decode(bytes@) is Ok && spec_decode(bytes@)->Ok_0.salt
            == session@.salt && is_sealing_of(spec_decode(bytes@)->Ok_0, session@.key, plaintext@),
        result matches Ok(bytes) ==> bytes@.len() == HEADER_LEN + plaintext@.len(),
        result matches Err(e) ==> e == StoreError::EncryptionFailure,
{
    match encrypt(&session.key, &session.salt, plaintext) {
        Ok(data) => {
            let bytes = data.to_bytes();
            proof {
                lemma_decode_encode(data@);
            }
            Ok(bytes)
        },
        Err(e) => Err(e),
    }
}

/// Opens the bytes of a store file with a password.
///
/// What a save wrote opens again: an image of notes under a session whose
/// key the password derives opens to that session and those notes.
pub fn open_store(password: &[u8], bytes: &[u8]) -> (result: Result<
    (Session, NoteList),
    StoreError,
>)
    ensures
        result matches Ok(opened) ==> spec_open_store(password@, bytes@) == Ok::<
            OpenedStore,
            StoreError,
        >(OpenedStore { key: opened.0@.key, salt: opened.0@.salt, notes: opened.1@ })
            && all_valid(opened.1@),
        result matches Err(e) ==> spec_open_store(password@, bytes@) == Err::<
            OpenedStore,
            StoreError,
        >(e),
        forall|session: SessionView, notes: Seq<NoteView>| #[trigger]
            opens_to(password@, bytes@, session, notes) ==> result is Ok && result->Ok_0.0@
                == session && result->Ok_0.1@ == notes,
{
    let data = match EncryptedData::from_bytes(bytes) {
        Ok(data) => data,
        Err(e) => {
            return Err(e);
        },
    };
    let key = match derive_key(password, &data.header.salt) {
        Ok(key) => key,
        Err(e) => {
            return Err(e);
        },
    };
    let plaintext = match decrypt(&key, &data) {
        Ok(plaintext) => plaintext,
        Err(e) => {
            return Err(e);
        },
    };
    match decode_notes(plaintext.as_slice()) {
        Ok(list) => Ok((Session { key, salt: data.header.salt }, list)),
        Err(e) => Err(e),
    }
}

/// A brand-new store that waits for its first write: the session made for
/// it and the image of the empty collection under that session.
pub struct FreshStore {
    session: Session,
    image: Vec<u8>,
}

impl FreshStore {
    /// The key material made for the new store.
    pub closed spec fn session(&self) -> SessionView {
        self.session@
    }

    /// The bytes to write.
    pub closed spec fn image(&self) -> Seq<u8> {
        self.image@
    }

    /// Makes the key material of a new store from a password and a fresh
    /// random salt, and the image of the empty collection.
    ///
    /// Fails exactly for a password beyond the limit of the key derivation.
    pub fn create(password: &[u8]) -> (result: Result<FreshStore, StoreError>)
        ensures
            result is Ok <==> password@.len() <= MAX_PASSWORD_LEN,
            result matches Ok(fresh) ==> fresh.session().key == argon2id_key(
                password@,
                fresh.session().salt,
            ) && is_store_image(fresh.image(), fresh.session(), Seq::<NoteView>::empty())
                && bincode_encoding(Seq::<NoteView>::empty()) == empty_encoding()
                && fresh.image().len() == HEADER_LEN + 8,
            result matches Err(e) ==> e == StoreError::KeyDerivationFailure,
    {
        let (key, salt) = match generate_test_key(password) {
            Ok(pair) => pair,
            Err(e) => {
                return Err(e);
            },
        };
        let session = Session { key, salt };
        let empty = NoteList::new();
        let encoded = match encode_notes(&empty) {
            Ok(encoded) => encoded,
            Err(e) => {
                return Err(e);
            },
        };
        match seal_image(&session, encoded.as_slice()) {
            Ok(image) => Ok(FreshStore { session, image }),
            Err(e) => Err(e),
        }
    }

    /// The bytes to write as the store file.
    pub fn bytes(&self) -> (bytes: &Vec<u8>)
        ensures
            bytes@ == self.image(),
    {
        &self.image
    }
}

/// The store manager.
pub struct CoreManager {
    session: Option<Session>,
    note_list: NoteList,
}

impl View for CoreManager {
    type V = StoreView;

    closed spec fn view(&self) -> StoreView {
        StoreView {
            session: match self.session {
                Some(session) => Some(session@),
                None => None,
            },
            notes: self.note_list@,
        }
    }
}

impl CoreManager {
    /// Every note has valid timestamps, and a locked store holds no notes.
    #[verifier::type_invariant]
    spec fn well_formed(self) -> bool {
        &&& all_valid(self.note_list@)
        &&& self.session is None ==> self.note_list@.len() == 0
    }

    /// A locked store without notes.
    pub fn new() -> (manager: CoreManager)
        ensures
            manager@ == (StoreView { session: None, notes: Seq::<NoteView>::empty() }),
    {
        CoreManager { session: None, note_list: NoteList::new() }
    }

    /// Takes the collection out of the manager, leaving an empty one behind.
    fn take_notes(&mut self) -> (list: NoteList)
        ensures
            list@ == old(self)@.notes,
            all_valid(list@),
            final(self)@ == (StoreView {
                session: old(self)@.session,
                notes: Seq::<NoteView>::empty(),
            }),
    {
        proof {
            use_type_invariant(&*self);
        }
        let mut list = NoteList::new();
        core::mem::swap(&mut list, &mut self.note_list);
        list
    }

    /// Whether the store was unlocked.
    pub fn is_unlocked(&self) -> (unlocked: bool)
        ensures
            unlocked == (self@.session is Some),
    {
        self.session.is_some()
    }

    /// Unlocks the store with what reading the store file gave.
    ///
    /// - On an unlocked store this does nothing and succeeds.
    /// - A file that could not be read is an `Io` error: it is never taken
    ///   for an absent one.
    /// - A file that was found is opened with the password. On success the
    ///   store is unlocked with the file's key material and notes. On
    ///   failure the store stays locked.
    /// - With no file this is the first run. The store stays locked, and
    ///   what is returned is the new store to write down; hand it to
    ///   `install_fresh_store` once it was written.
    pub fn unlock(&mut self, master_password: MasterPassword, stored: StoreFile) -> (result: Result<
        Option<FreshStore>,
        StoreError,
    >)
        ensures
            old(self)@.session is Some ==> final(self)@ == old(self)@ && result is Ok
                && result->Ok_0 is None,
            old(self)@.session is None && stored is Unreadable ==> refused(
                old(self)@,
                final(self)@,
                result,
                StoreError::Io,
            ),
            old(self)@.session is None && stored is Found ==> unlock_found(
                old(self)@,
                final(self)@,
                spec_open_store(master_password@, stored->Found_0@),
                result,
            ),
            old(self)@.session is None && stored is Missing ==> final(self)@ == old(self)@
                && unlock_missing(master_password@, result),
            old(self)@.session is None && stored is Found ==> forall|
                session: SessionView,
                notes: Seq<NoteView>,
            | #[trigger]
                opens_to(master_password@, stored->Found_0@, session, notes) ==> result is Ok
                    && final(self)@ == (StoreView { session: Some(session), notes }),
    {
        proof {
            use_type_invariant(&*self);
        }
        if self.session.is_some() {
            return Ok(None);
        }
        match stored {
            StoreFile::Unreadable => Err(StoreError::Io),
            StoreFile::Found(bytes) => {
                match open_store(master_password.as_bytes(), bytes.as_slice()) {
                    Ok(opened) => {
                        let (session, list) = opened;
                        self.session = Some(session);
                        self.note_list = list;
                        Ok(None)
                    },
                    Err(e) => Err(e),
                }
            },
            StoreFile::Missing => {
                match FreshStore::create(master_password.as_bytes()) {
                    Ok(fresh) => Ok(Some(fresh)),
                    Err(e) => Err(e),
                }
            },
        }
    }

    /// Ends the first run: installs the session of a new store once its
    /// image was written.
    ///
    /// A failed write is an `Io` error and leaves the store locked. A store
    /// that is already unlocked keeps its session.
    pub fn install_fresh_store(&mut self, fresh: FreshStore, written: bool) -> (result: Result<
        (),
        StoreError,
    >)
        ensures
            !written ==> refused(old(self)@, final(self)@, result, StoreError::Io),
            written ==> result is Ok,
            written && old(self)@.session is Some ==> final(self)@ == old(self)@,
            written && old(self)@.session is None ==> final(self)@ == (StoreView {
                session: Some(fresh.session()),
                notes: Seq::<NoteView>::empty(),
            }),
    {
        proof {
            use_type_invariant(&*self);
        }
        if !written {
            return Err(StoreError::Io);
        }
        if self.session.is_none() {
            let FreshStore { session, image } = fresh;
            self.session = Some(session);
            assert(self.note_list@ =~= Seq::<NoteView>::empty());
        }
        Ok(())
    }

    /// Serializes and encrypts the collection under the session, with a
    /// fresh nonce. The bytes are to be written over the store file.
    ///
    /// On an unlocked store this succeeds exactly when the encoding of the
    /// notes is within the cipher's limit.
    pub fn save_notes(&self) -> (result: Result<Vec<u8>, StoreError>)
        ensures
            self@.session is None ==> fails_with(result, StoreError::ApplicationLocked),
            self@.session is Some ==> save_outcome(result, self@),
    {
        proof {
            use_type_invariant(self);
        }
        match &self.session {
            None => Err(StoreError::ApplicationLocked),
            Some(session) => {
                let encoded = match encode_notes(&self.note_list) {
                    Ok(encoded) => encoded,
                    Err(e) => {
                        return Err(e);
                    },
                };
                seal_image(session, encoded.as_slice())
            },
        }
    }

    /// A copy of the notes, in the order of the collection. A locked store
    /// has none.
    pub fn get_notes(&self) -> (notes: Vec<Note>)
        ensures
            notes_view(notes@) == self@.notes,
            self@.session is None ==> notes@.len() == 0,
    {
        proof {
            use_type_invariant(self);
        }
        let mut notes: Vec<Note> = Vec::new();
        let mut i: usize = 0;
        while i < self.note_list.notes.len()
            invariant
                i <= self.note_list.notes@.len(),
                notes@ == self.note_list.notes@.subrange(0, i as int),
            decreases self.note_list.notes@.len() - i,
        {
            notes.push(self.note_list.notes[i].clone());
            i += 1;
        }
        assert(notes@ =~= self.note_list.notes@);
        notes
    }

    /// Creates a note at the current time, adds it and saves.
    ///
    /// On a locked store this fails and changes nothing. Otherwise the note
    /// is in the collection whether or not the save succeeds.
    pub fn create_note(&mut self, title: String, content: String) -> (result: Result<
        Vec<u8>,
        StoreError,
    >)
        ensures
            old(self)@.session is None ==> refused(
                old(self)@,
                final(self)@,
                result,
                StoreError::ApplicationLocked,
            ),
            old(self)@.session is Some ==> save_outcome(result, final(self)@),
            old(self)@.session is Some ==> exists|now: Timestamp|
                now.valid() && #[trigger] spec_after_create(old(self)@, title@, content@, now)
                    == final(self)@,
            old(self)@.session is Some ==> sorted_desc(final(self)@.notes)
                && final(self)@.notes.len() == old(self)@.notes.len() + 1,
    {
        proof {
            use_type_invariant(&*self);
        }
        if self.session.is_none() {
            return Err(StoreError::ApplicationLocked);
        }
        let note = Note::new(title, content);
        let ghost now = note.created_at;
        let mut list = self.take_notes();
        list.add_note(note);
        self.note_list = list;
        assert(spec_after_create(old(self)@, title@, content@, now) == self@);
        self.save_notes()
    }

    /// Updates the first note with the given id at the current time and
    /// saves.
    ///
    /// On a locked store this fails and changes nothing, and so it does
    /// with `NotFound` when no note has the id. Otherwise the note is
    /// updated whether or not the save succeeds.
    pub fn update_note(&mut self, id: u64, title: String, content: String) -> (result: Result<
        Vec<u8>,
        StoreError,
    >)
        ensures
            old(self)@.session is None ==> refused(
                old(self)@,
                final(self)@,
                result,
                StoreError::ApplicationLocked,
            ),
            old(self)@.session is Some && !contains_id(old(self)@.notes, id) ==> refused(
                old(self)@,
                final(self)@,
                result,
                StoreError::NotFound,
            ),
            old(self)@.session is Some && contains_id(old(self)@.notes, id) ==> save_outcome(
                result,
                final(self)@,
            ),
            old(self)@.session is Some && contains_id(old(self)@.notes, id) ==> exists|
                now: Timestamp,
            |
                now.valid() && #[trigger] spec_after_update(old(self)@, id, title@, content@, now)
                    == final(self)@,
            old(self)@.session is Some && contains_id(old(self)@.notes, id) ==> sorted_desc(
                final(self)@.notes,
            ) && final(self)@.notes.len() == old(self)@.notes.len(),
    {
        proof {
            use_type_invariant(&*self);
        }
        if self.session.is_none() {
            return Err(StoreError::ApplicationLocked);
        }
        let now = Timestamp::now();
        let mut list = self.take_notes();
        let updated = list.update_note_at(id, title, content, now);
        self.note_list = list;
        proof {
            lemma_index_of_id(old(self)@.notes, id);
        }
        if updated {
            assert(spec_after_update(old(self)@, id, title@, content@, now) == self@);
            self.save_notes()
        } else {
            Err(StoreError::NotFound)
        }
    }

    /// Deletes every note with the given id and saves.
    ///
    /// On a locked store this fails and changes nothing, and so it does
    /// with `NotFound` when no note has the id. Otherwise the notes are
    /// gone whether or not the save succeeds.
    pub fn delete_note(&mut self, id: u64) -> (result: Result<Vec<u8>, StoreError>)
        ensures
            old(self)@.session is None ==> refused(
                old(self)@,
                final(self)@,
                result,
                StoreError::ApplicationLocked,
            ),
            old(self)@.session is Some && !contains_id(old(self)@.notes, id) ==> refused(
                old(self)@,
                final(self)@,
                result,
                StoreError::NotFound,
            ),
            old(self)@.session is Some && contains_id(old(self)@.notes, id) ==> final(self)@
                == spec_after_delete(old(self)@, id) && save_outcome(result, final(self)@),
            !contains_id(final(self)@.notes, id),
            sorted_desc(old(self)@.notes) ==> sorted_desc(final(self)@.notes),
    {
        proof {
            use_type_invariant(&*self);
        }
        if self.session.is_none() {
            return Err(StoreError::ApplicationLocked);
        }
        let ghost before = self@.notes;
        let mut list = self.take_notes();
        let removed = list.delete_note(id);
        self.note_list = list;
        proof {
            lemma_delete_removes_id(before, id);
            if !removed {
                lemma_delete_absent(before, id);
            }
        }
        if removed {
            self.save_notes()
        } else {
            Err(StoreError::NotFound)
        }
    }

    /// Formats the first note with the given id as plain text.
    pub fn export_note_text(&self, id: u64) -> (result: Result<String, StoreError>)
        ensures
            self@.session is None ==> fails_with(result, StoreError::ApplicationLocked),
            self@.session is Some && !contains_id(self@.notes, id) ==> fails_with(
                result,
                StoreError::NotFound,
            ),
            self@.session is Some && contains_id(self@.notes, id) ==> result is Ok && spec_find(
                self@.notes,
                id,
            ) is Some && result->Ok_0@ == spec_note_text(
                spec_find(self@.notes, id)->Some_0.title,
                spec_find(self@.notes, id)->Some_0.content,
            ),
    {
        if self.session.is_none() {
            return Err(StoreError::ApplicationLocked);
        }
        match self.note_list.find(id) {
            Some(note) => Ok(note.to_text()),
            None => Err(StoreError::NotFound),
        }
    }

    /// Serializes and encrypts the collection under the current session,
    /// as `save_notes` does, for writing to a file of the caller's choice.
    /// The export opens with the password of this store.
    pub fn export_all_encrypted(&self) -> (result: Result<Vec<u8>, StoreError>)
        ensures
            self@.session is None ==> fails_with(result, StoreError::ApplicationLocked),
            self@.session is Some ==> save_outcome(result, self@),
    {
        self.save_notes()
    }

    /// Opens what reading an import file gave with the given password,
    /// adds every note of it to the collection and saves under the current
    /// session.
    ///
    /// The key is derived from the given password and the file's own salt.
    /// On a locked store, for a file that is missing or unreadable (`Io`),
    /// and for a file that does not open, this fails and changes nothing.
    /// Otherwise the notes are merged in whether or not the save succeeds.
    pub fn import_encrypted(
        &mut self,
        imported: StoreFile,
        master_password: MasterPassword,
    ) -> (result: Result<Vec<u8>, StoreError>)
        ensures
            old(self)@.session is None ==> refused(
                old(self)@,
                final(self)@,
                result,
                StoreError::ApplicationLocked,
            ),
            old(self)@.session is Some && !(imported is Found) ==> refused(
                old(self)@,
                final(self)@,
                result,
                StoreError::Io,
            ),
            old(self)@.session is Some && imported is Found ==> import_found(
                old(self)@,
                final(self)@,
                spec_open_store(master_password@, imported->Found_0@),
                result,
            ),
            old(self)@.session is Some && imported is Found ==> forall|
                session: SessionView,
                notes: Seq<NoteView>,
            | #[trigger]
                opens_to(master_password@, imported->Found_0@, session, notes) ==> final(self)@
                    == spec_after_import(old(self)@, notes) && save_outcome(
                    result,
                    final(self)@,
                ),
    {
        proof {
            use_type_invariant(&*self);
        }
        if self.session.is_none() {
            return Err(StoreError::ApplicationLocked);
        }
        let bytes = match imported {
            StoreFile::Found(bytes) => bytes,
            _ => {
                return Err(StoreError::Io);
            },
        };
        let incoming = match open_store(master_password.as_bytes(), bytes.as_slice()) {
            Ok(opened) => opened.1,
            Err(e) => {
                return Err(e);
            },
        };
        let mut list = self.take_notes();
        list.merge_from(incoming);
        self.note_list = list;
        self.save_notes()
    }
}

/// The operation failed with the given error and changed nothing.
pub open spec fn refused<T>(
    pre: StoreView,
    post: StoreView,
    result: Result<T, StoreError>,
    error: StoreError,
) -> bool {
    post == pre && fails_with(result, error)
}

/// How `unlock` ends on a locked store for a file that was found.
pub open spec fn unlock_found(
    pre: StoreView,
    post: StoreView,
    opened: Result<OpenedStore, StoreError>,
    result: Result<Option<FreshStore>, StoreError>,
) -> bool {
    match opened {
        Ok(store) => post == spec_after_open(store) && result is Ok && result->Ok_0 is None,
        Err(e) => refused(pre, post, result, e),
    }
}

/// How `unlock` ends on a locked store when there is no file. It succeeds
/// exactly when the password is within the limit of the key derivation,
/// and then gives a new store whose key is derived from the password and
/// whose image, of 52 bytes, seals the empty collection.
pub open spec fn unlock_missing(
    password: Seq<u8>,
    result: Result<Option<FreshStore>, StoreError>,
) -> bool {
    &&& result is Ok <==> password.len() <= MAX_PASSWORD_LEN
    &&& result matches Ok(made) ==> made is Some && made->Some_0.session().key == argon2id_key(
        password,
        made->Some_0.session().salt,
    ) && is_store_image(
        made->Some_0.image(),
        made->Some_0.session(),
        Seq::<NoteView>::empty(),
    ) && bincode_encoding(Seq::<NoteView>::empty()) == empty_encoding()
        && made->Some_0.image().len() == HEADER_LEN + 8
    &&& result matches Err(e) ==> e == StoreError::KeyDerivationFailure
}

/// How `import_encrypted` ends on an unlocked store for a file that was found.
pub open spec fn import_found(
    pre: StoreView,
    post: StoreView,
    opened: Result<OpenedStore, StoreError>,
    result: Result<Vec<u8>, StoreError>,
) -> bool {
    match opened {
        Ok(store) => post == spec_after_import(pre, store.notes) && save_outcome(result, post),
        Err(e) => refused(pre, post, result, e),
    }
}

/// After a delete no note has the id.
pub proof fn lemma_delete_removes_id(s: Seq<NoteView>, id: u64)
    ensures
        !contains_id(spec_delete(s, id), id),
{
    broadcast use vstd::seq_lib::group_filter_ensures;

    let keep = |note: NoteView| note.id != id;
    assert forall|i: int| 0 <= i < s.filter(keep).len() implies (#[trigger] s.filter(keep)[i]).id
        != id by {
        assert(keep(s.filter(keep)[i]));
    }
}

/// Deleting an id that no note has changes nothing.
pub proof fn lemma_delete_absent(s: Seq<NoteView>, id: u64)
    requires
        !contains_id(s, id),
    ensures
        spec_delete(s, id) == s,
    decreases s.len(),
{
    reveal(Seq::filter);
    let keep = |note: NoteView| note.id != id;
    if s.len() > 0 {
        let front = s.drop_last();
        assert forall|i: int| 0 <= i < front.len() implies (#[trigger] front[i]).id != id by {
            assert(front[i] == s[i]);
        }
        lemma_delete_absent(front, id);
        assert(s.last() == s[s.len() - 1]);
        assert(keep(s.last()));
        assert(front.push(s.last()) =~= s);
    }
}

/// Importing keeps every note of the store and of the file: the collection
/// grows by the number of notes in the file, whatever their ids.
pub proof fn lemma_import_keeps_all(pre: StoreView, incoming: Seq<NoteView>)
    ensures
        spec_after_import(pre, incoming).notes.len() == pre.notes.len() + incoming.len(),
        spec_after_import(pre, incoming).notes.to_multiset() == pre.notes.to_multiset().add(
            incoming.to_multiset(),
        ),
        spec_after_import(pre, incoming).session == pre.session,
{
    lemma_merge(pre.notes, incoming);
}

} // verus!
