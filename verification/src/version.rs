//! Resolving an envelope to the one format it holds.
use crate::backup::BackupVersion;
use crate::backup::BackupVersionView;
use crate::error::BackupError;
use crate::format::backup_stepper;
use crate::format::decode_backup;
use crate::laws::fits;
use crate::laws::lemma_fold_bytes;
use crate::schema::Backup;
use crate::schema::BackupContent;
use crate::schema::BackupContentView;
use crate::schema::BackupView;
use crate::wire::bytes_field;
use crate::wire::lemma_fold_fields_end;
use crate::wire::valid_tag;
use vstd::prelude::*;

verus! {

/// The content that an envelope resolves to, or why it resolves to none:
/// `MissingVersion` where it holds no format, `UnsupportedVersion` where it
/// holds one that this build does not know, `EmptyContent` where it holds
/// the first format without content.
pub open spec fn resolved(b: BackupView) -> Result<BackupContentView, BackupError> {
    match b.backup_version {
        None => Err(BackupError::MissingVersion),
        Some(BackupVersionView::Unrecognized(_)) => Err(BackupError::UnsupportedVersion),
        Some(BackupVersionView::BackupV1(v)) => match v.content {
            None => Err(BackupError::EmptyContent),
            Some(c) => Ok(c),
        },
    }
}

/// The view of what resolving came to.
pub open spec fn resolution_view(r: Result<BackupContent, BackupError>) -> Result<
    BackupContentView,
    BackupError,
> {
    match r {
        Ok(c) => Ok(c@),
        Err(e) => Err(e),
    }
}

/// Resolves an envelope to the content of the format it holds. A format
/// that this build does not know is never read as one that it knows.
pub fn resolve(backup: Backup) -> (out: Result<BackupContent, BackupError>)
    ensures
        resolution_view(out) == resolved(backup@),
{
    match backup.backup_version {
        None => Err(BackupError::MissingVersion),
        Some(BackupVersion::Unrecognized(_)) => Err(BackupError::UnsupportedVersion),
        Some(BackupVersion::BackupV1(v)) => match v.content {
            None => Err(BackupError::EmptyContent),
            Some(c) => Ok(c),
        },
    }
}

/// An envelope that holds nothing resolves to `MissingVersion`, and so does
/// what no bytes at all decode to.
pub proof fn lemma_empty_envelope_is_missing()
    ensures
        resolved(BackupView { backup_version: None }) == Err::<BackupContentView, BackupError>(
            BackupError::MissingVersion,
        ),
        decode_backup(Seq::empty()) == Some(BackupView { backup_version: None }),
{
    lemma_fold_fields_end(BackupView { backup_version: None }, backup_stepper());
}

/// An envelope made of one field under a tag other than that of the first
/// format, whatever its payload, decodes without error and resolves to
/// `UnsupportedVersion`.
pub proof fn lemma_unknown_version_is_unsupported(tag: u32, payload: Seq<u8>)
    requires
        valid_tag(tag),
        tag != 1,
        fits(payload),
    ensures
        decode_backup(bytes_field(tag, payload)) == Some(
            BackupView { backup_version: Some(BackupVersionView::Unrecognized(tag)) },
        ),
        resolved(decode_backup(bytes_field(tag, payload)).unwrap()) == Err::<
            BackupContentView,
            BackupError,
        >(BackupError::UnsupportedVersion),
{
    let none = Seq::<u8>::empty();
    let a0 = BackupView { backup_version: None };
    let a1 = BackupView { backup_version: Some(BackupVersionView::Unrecognized(tag)) };
    assert(bytes_field(tag, payload) =~= bytes_field(tag, payload) + none);
    lemma_fold_bytes(tag, payload, none, a0, backup_stepper());
    lemma_fold_fields_end(a1, backup_stepper());
}

} // verus!
