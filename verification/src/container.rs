//! A backup from end to end: creating the bytes that go to storage, and
//! loading what comes back from it.
//!
//! Loading goes one way through its stages and stops at the first that
//! fails: the envelope is decoded, resolved to its content, the content's
//! checksum is verified, and only then is the data decoded and the secret
//! taken out. Nothing is tried twice here.
use crate::backup::BackupVersion;
use crate::backup::BackupVersionView;
use crate::checksum::authentic;
use crate::checksum::checksum_of;
use crate::checksum::verify;
use crate::error::BackupError;
use crate::format::decode_backup;
use crate::format::decode_data;
use crate::format::encode_backup;
use crate::format::encode_data;
use crate::schema::option_view;
use crate::schema::Backup;
use crate::schema::BackupContent;
use crate::schema::BackupContentView;
use crate::schema::BackupData;
use crate::schema::BackupDataView;
use crate::schema::BackupMetaData;
use crate::schema::BackupMetaDataView;
use crate::schema::BackupV1;
use crate::schema::BackupV1View;
use crate::schema::BackupView;
use crate::version::resolve;
use crate::version::resolved;
use vstd::prelude::*;

verus! {

/// What a backup holds once it has been loaded. `seed` is the secret and
/// nothing more: what the buffer held beyond it is gone.
#[derive(Clone, Debug, PartialEq, Eq)]
pub struct Loaded {
    pub seed: Vec<u8>,
    pub birthdate: u32,
    pub generator: String,
    pub metadata: Option<BackupMetaData>,
}

/// The mathematical value of a [`Loaded`].
pub struct LoadedView {
    pub seed: Seq<u8>,
    pub birthdate: u32,
    pub generator: Seq<char>,
    pub metadata: Option<BackupMetaDataView>,
}

impl View for Loaded {
    type V = LoadedView;

    open spec fn view(&self) -> LoadedView {
        LoadedView {
            seed: self.seed@,
            birthdate: self.birthdate,
            generator: self.generator@,
            metadata: option_view(self.metadata),
        }
    }
}

/// The view of what loading came to.
pub open spec fn loading_view(r: Result<Loaded, BackupError>) -> Result<LoadedView, BackupError> {
    match r {
        Ok(l) => Ok(l@),
        Err(e) => Err(e),
    }
}

/// What a data record and the metadata beside it load to.
pub open spec fn loaded_from(d: BackupDataView, metadata: Option<BackupMetaDataView>) -> LoadedView {
    LoadedView { seed: d.secret(), birthdate: d.birthdate, generator: d.generator, metadata }
}

/// What a content record opens to: `ChecksumMismatch` unless it is
/// authentic; then `MalformedEncoding` unless its data decodes to a record
/// whose secret fits its buffer; then the secret with what belongs to it.
pub open spec fn opened(c: BackupContentView) -> Result<LoadedView, BackupError> {
    if !authentic(c) {
        Err(BackupError::ChecksumMismatch)
    } else {
        match decode_data(c.data) {
            None => Err(BackupError::MalformedEncoding),
            Some(d) => if d.valid() {
                Ok(loaded_from(d, c.metadata))
            } else {
                Err(BackupError::MalformedEncoding)
            },
        }
    }
}

/// What the bytes of a backup load to: `MalformedEncoding` unless they
/// decode to an envelope; then what resolving the envelope fails with, if it
/// fails; then what its content opens to.
pub open spec fn loaded(bytes: Seq<u8>) -> Result<LoadedView, BackupError> {
    match decode_backup(bytes) {
        None => Err(BackupError::MalformedEncoding),
        Some(b) => match resolved(b) {
            Err(e) => Err(e),
            Ok(c) => opened(c),
        },
    }
}

/// The envelope around a content record in the first format.
pub open spec fn envelope_of(c: BackupContentView) -> BackupView {
    BackupView {
        backup_version: Some(BackupVersionView::BackupV1(BackupV1View { content: Some(c) })),
    }
}

/// The content record that a new backup holds: the encoded data, the
/// checksum that belongs to it, and a legacy length of zero.
pub open spec fn content_of(metadata: Option<BackupMetaDataView>, d: BackupDataView)
    -> BackupContentView {
    BackupContentView {
        checksum: checksum_of(metadata, 0, encode_data(d)),
        metadata,
        length: 0,
        data: encode_data(d),
    }
}

/// The bytes of a new backup.
pub open spec fn created(metadata: Option<BackupMetaDataView>, d: BackupDataView) -> Seq<u8> {
    encode_backup(envelope_of(content_of(metadata, d)))
}

/// Loading a backup that was created from a valid data record gives back
/// the secret, the birthdate, the generator and the metadata.
pub proof fn lemma_load_inverts_create(metadata: Option<BackupMetaDataView>, d: BackupDataView)
    requires
        d.valid(),
        d.representable(),
        envelope_of(content_of(metadata, d)).representable(),
    ensures
        loaded(created(metadata, d)) == Ok::<LoadedView, BackupError>(loaded_from(d, metadata)),
{
    crate::laws::lemma_backup_roundtrip(envelope_of(content_of(metadata, d)));
    crate::laws::lemma_data_roundtrip(d);
}

/// Opens a content record: verifies its checksum, then decodes its data and
/// takes out the secret. A record that is not authentic is refused before
/// any of its data is read.
pub fn unseal(content: BackupContent) -> (out: Result<Loaded, BackupError>)
    ensures
        loading_view(out) == opened(content@),
{
    if !verify(&content) {
        return Err(BackupError::ChecksumMismatch);
    }
    let data = match BackupData::decode(content.data.as_slice()) {
        Ok(d) => d,
        Err(e) => {
            return Err(e);
        },
    };
    if !data.is_valid() {
        return Err(BackupError::MalformedEncoding);
    }
    let BackupData { seed_length, seed, birthdate, generator } = data;
    let mut seed = seed;
    seed.truncate(seed_length as usize);
    Ok(Loaded { seed, birthdate, generator, metadata: content.metadata })
}

/// Loads a backup from its bytes.
pub fn load(bytes: &[u8]) -> (out: Result<Loaded, BackupError>)
    ensures
        loading_view(out) == loaded(bytes@),
{
    let backup = match Backup::decode(bytes) {
        Ok(b) => b,
        Err(e) => {
            return Err(e);
        },
    };
    match resolve(backup) {
        Ok(content) => unseal(content),
        Err(e) => Err(e),
    }
}

/// The bytes of a new backup of `data`, in the first format, with a legacy
/// length of zero; `None` where the secret of `data` does not fit its
/// buffer. Loading the bytes gives back what went in.
pub fn create(metadata: Option<BackupMetaData>, data: &BackupData) -> (out: Option<Vec<u8>>)
    ensures
        out is Some <==> data@.valid(),
        out matches Some(bytes) ==> bytes@ == created(option_view(metadata), data@) && loaded(
            bytes@,
        ) == Ok::<LoadedView, BackupError>(loaded_from(data@, option_view(metadata))),
{
    if !data.is_valid() {
        return None;
    }
    let ghost m = option_view(metadata);
    let content = BackupContent::with_checksum(metadata, 0, data.encode_to_vec());
    let backup = Backup {
        backup_version: Some(BackupVersion::BackupV1(BackupV1 { content: Some(content) })),
    };
    match backup.encode_to_vec() {
        Ok(bytes) => {
            proof {
                assert(backup@ == envelope_of(content_of(m, data@)));
                lemma_load_inverts_create(m, data@);
            }
            Some(bytes)
        },
        Err(_) => None,
    }
}

} // verus!
