//! The formats that a backup envelope can hold.
use crate::schema::BackupV1;
use crate::schema::BackupV1View;
use vstd::prelude::*;

verus! {

/// The format inside an envelope: one of the formats that this build knows,
/// or the tag of one that it does not.
#[derive(Clone, Debug, PartialEq, Eq)]
pub enum BackupVersion {
    /// The first format, under tag 1.
    BackupV1(BackupV1),
    /// A format that this build does not know, with the tag it came under.
    Unrecognized(u32),
}

/// The mathematical value of a [`BackupVersion`].
pub enum BackupVersionView {
    BackupV1(BackupV1View),
    Unrecognized(u32),
}

impl View for BackupVersion {
    type V = BackupVersionView;

    open spec fn view(&self) -> BackupVersionView {
        match self {
            BackupVersion::BackupV1(v) => BackupVersionView::BackupV1(v@),
            BackupVersion::Unrecognized(tag) => BackupVersionView::Unrecognized(*tag),
        }
    }
}

} // verus!
