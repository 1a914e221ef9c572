//! The records of a backup and their mathematical views.
use crate::backup::BackupVersion;
use crate::backup::BackupVersionView;
use crate::error::BackupError;
use crate::wire::bytes_equal;
use vstd::prelude::*;
use vstd::slice::slice_subrange;
use vstd::utf8::encode_utf8_decode_utf8;

verus! {

/// How the seed inside a backup is protected.
#[derive(Clone, Copy, Debug, PartialEq, Eq, Hash, PartialOrd, Ord, Structural)]
pub enum BackupMode {
    /// The seed is stored as it is.
    Plaintext,
}

impl BackupMode {
    /// The number that stands for this mode on the wire.
    pub open spec fn number(self) -> i32 {
        match self {
            BackupMode::Plaintext => 0,
        }
    }

    /// The mode that `value` stands for, if this build knows it.
    pub open spec fn of_number(value: i32) -> Option<BackupMode> {
        if value == 0 {
            Some(BackupMode::Plaintext)
        } else {
            None
        }
    }

    /// The canonical name of this mode.
    pub open spec fn name(self) -> Seq<char> {
        match self {
            BackupMode::Plaintext => "PLAINTEXT"@,
        }
    }

    /// The mode that `name` is the canonical name of, if any.
    pub open spec fn of_name(name: Seq<char>) -> Option<BackupMode> {
        if name == "PLAINTEXT"@ {
            Some(BackupMode::Plaintext)
        } else {
            None
        }
    }

    /// The canonical name of this mode. Names are stable and safe for
    /// programmatic use.
    pub fn as_str_name(&self) -> (name: &'static str)
        ensures
            name@ == self.name(),
            BackupMode::of_name(name@) == Some(*self),
    {
        match self {
            BackupMode::Plaintext => "PLAINTEXT",
        }
    }

    /// The mode with the canonical name `value`; `None` for every other
    /// string.
    pub fn from_str_name(value: &str) -> (mode: Option<BackupMode>)
        ensures
            mode == BackupMode::of_name(value@),
    {
        let known: &'static str = "PLAINTEXT";
        proof {
            encode_utf8_decode_utf8(value@);
            encode_utf8_decode_utf8(known@);
        }
        if bytes_equal(value.as_bytes(), known.as_bytes()) {
            Some(BackupMode::Plaintext)
        } else {
            None
        }
    }

    /// The number that stands for this mode on the wire.
    pub fn to_i32(&self) -> (value: i32)
        ensures
            value == self.number(),
            BackupMode::of_number(value) == Some(*self),
    {
        match self {
            BackupMode::Plaintext => 0,
        }
    }

    /// The mode that `value` stands for. A number that this build does not
    /// know is an error, never a default.
    pub fn from_i32(value: i32) -> (mode: Result<BackupMode, BackupError>)
        ensures
            mode == match BackupMode::of_number(value) {
                Some(m) => Ok::<BackupMode, BackupError>(m),
                None => Err(BackupError::UnknownEnumValue),
            },
    {
        if value == 0 {
            Ok(BackupMode::Plaintext)
        } else {
            Err(BackupError::UnknownEnumValue)
        }
    }
}

impl Default for BackupMode {
    /// The mode that the number zero stands for.
    fn default() -> (mode: BackupMode)
        ensures
            mode == BackupMode::Plaintext,
            mode.number() == 0,
    {
        BackupMode::Plaintext
    }
}

/// Names and numbers map back to the mode they came from: the two tables
/// cover every mode and agree with each other.
pub proof fn lemma_mode_tables_agree(mode: BackupMode)
    ensures
        BackupMode::of_name(mode.name()) == Some(mode),
        BackupMode::of_number(mode.number()) == Some(mode),
{
}

/// The view of what an optional value holds, if it holds one.
pub open spec fn option_view<T: View>(o: Option<T>) -> Option<T::V> {
    match o {
        Some(x) => Some(x@),
        None => None,
    }
}

/// What describes a backup to a human. It takes part in no decision but is
/// covered by the checksum.
#[derive(Clone, Debug, PartialEq, Eq)]
pub struct BackupMetaData {
    /// When the backup was made, in seconds since the epoch.
    pub timestamp: u32,
    /// The name that the user gave to the device.
    pub name: String,
    /// The number of the backup's mode as it stands on the wire; see
    /// [`BackupMetaData::mode`].
    pub mode: i32,
}

/// The mathematical value of a [`BackupMetaData`].
pub struct BackupMetaDataView {
    pub timestamp: u32,
    pub name: Seq<char>,
    pub mode: i32,
}

impl View for BackupMetaData {
    type V = BackupMetaDataView;

    open spec fn view(&self) -> BackupMetaDataView {
        BackupMetaDataView { timestamp: self.timestamp, name: self.name@, mode: self.mode }
    }
}

impl BackupMetaDataView {
    /// The record of zero values.
    pub open spec fn zero() -> BackupMetaDataView {
        BackupMetaDataView { timestamp: 0, name: Seq::empty(), mode: 0 }
    }
}

impl Default for BackupMetaData {
    /// The record of zero values, which is what no bytes at all decode to.
    fn default() -> (m: BackupMetaData)
        ensures
            m@ == BackupMetaDataView::zero(),
    {
        BackupMetaData { timestamp: 0, name: String::new(), mode: 0 }
    }
}

impl BackupMetaData {
    /// The backup's mode, or `UnknownEnumValue` where the number on the wire
    /// is one that this build does not know.
    pub fn mode(&self) -> (mode: Result<BackupMode, BackupError>)
        ensures
            mode == match BackupMode::of_number(self.mode) {
                Some(m) => Ok::<BackupMode, BackupError>(m),
                None => Err(BackupError::UnknownEnumValue),
            },
    {
        BackupMode::from_i32(self.mode)
    }

    /// Sets the backup's mode.
    pub fn set_mode(&mut self, mode: BackupMode)
        ensures
            final(self)@ == (BackupMetaDataView { mode: mode.number(), ..old(self)@ }),
            BackupMode::of_number(final(self).mode) == Some(mode),
    {
        self.mode = mode.to_i32();
    }
}

/// The secret and what belongs to it. Only the first `seed_length` bytes of
/// `seed` are the secret; the buffer may be longer.
#[derive(Clone, Debug, PartialEq, Eq)]
pub struct BackupData {
    /// The number of bytes of `seed` that are the secret.
    pub seed_length: u32,
    /// The buffer that starts with the secret.
    pub seed: Vec<u8>,
    /// When the seed was made, in seconds since the epoch.
    pub birthdate: u32,
    /// The software that made the backup.
    pub generator: String,
}

/// The mathematical value of a [`BackupData`].
pub struct BackupDataView {
    pub seed_length: u32,
    pub seed: Seq<u8>,
    pub birthdate: u32,
    pub generator: Seq<char>,
}

impl BackupDataView {
    /// The record's invariant: the secret fits the buffer.
    pub open spec fn valid(self) -> bool {
        self.seed_length <= self.seed.len()
    }

    /// The secret: the first `seed_length` bytes of the buffer.
    pub open spec fn secret(self) -> Seq<u8>
        recommends
            self.valid(),
    {
        self.seed.subrange(0, self.seed_length as int)
    }
}

impl View for BackupData {
    type V = BackupDataView;

    open spec fn view(&self) -> BackupDataView {
        BackupDataView {
            seed_length: self.seed_length,
            seed: self.seed@,
            birthdate: self.birthdate,
            generator: self.generator@,
        }
    }
}

impl BackupDataView {
    /// The record of zero values.
    pub open spec fn zero() -> BackupDataView {
        BackupDataView { seed_length: 0, seed: Seq::empty(), birthdate: 0, generator: Seq::empty() }
    }
}

impl Default for BackupData {
    /// The record of zero values, which is what no bytes at all decode to.
    fn default() -> (d: BackupData)
        ensures
            d@ == BackupDataView::zero(),
            d@.valid(),
    {
        BackupData { seed_length: 0, seed: Vec::new(), birthdate: 0, generator: String::new() }
    }
}

impl BackupData {
    /// A record whose secret is the whole of `seed`; `None` where the length
    /// of `seed` does not fit 32 bits.
    pub fn new(seed: Vec<u8>, birthdate: u32, generator: String) -> (data: Option<BackupData>)
        ensures
            data is Some <==> seed@.len() <= u32::MAX,
            data matches Some(d) ==> d@ == (BackupDataView {
                seed_length: seed@.len() as u32,
                seed: seed@,
                birthdate,
                generator: generator@,
            }) && d@.valid() && d@.secret() == seed@,
    {
        if seed.len() > 0xFFFF_FFFF {
            None
        } else {
            let seed_length: u32 = seed.len() as u32;
            proof {
                assert(seed@.subrange(0, seed_length as int) =~= seed@);
            }
            Some(BackupData { seed_length, seed, birthdate, generator })
        }
    }

    /// Whether the record keeps its invariant: the secret fits the buffer.
    pub fn is_valid(&self) -> (valid: bool)
        ensures
            valid == self@.valid(),
    {
        self.seed_length as usize <= self.seed.len()
    }

    /// The secret: exactly the first `seed_length` bytes of the buffer, and
    /// nothing of what follows them; `None` where the record breaks its
    /// invariant.
    pub fn secret(&self) -> (secret: Option<&[u8]>)
        ensures
            secret is Some <==> self@.valid(),
            secret matches Some(s) ==> s@ == self@.secret() && s@.len() == self.seed_length,
    {
        if self.seed_length as usize <= self.seed.len() {
            Some(slice_subrange(self.seed.as_slice(), 0, self.seed_length as usize))
        } else {
            None
        }
    }
}

/// The payload that the checksum protects.
#[derive(Clone, Debug, PartialEq, Eq)]
pub struct BackupContent {
    /// The digest over `metadata`, `length` and `data`.
    pub checksum: Vec<u8>,
    /// What describes the backup.
    pub metadata: Option<BackupMetaData>,
    /// A legacy field. It once held the length of the encoded `data` field,
    /// key included; backups made today hold zero. It is never checked
    /// against `data`, but the digest covers it as it stands.
    pub length: u32,
    /// The encoding of a [`BackupData`].
    pub data: Vec<u8>,
}

/// The mathematical value of a [`BackupContent`].
pub struct BackupContentView {
    pub checksum: Seq<u8>,
    pub metadata: Option<BackupMetaDataView>,
    pub length: u32,
    pub data: Seq<u8>,
}

impl View for BackupContent {
    type V = BackupContentView;

    open spec fn view(&self) -> BackupContentView {
        BackupContentView {
            checksum: self.checksum@,
            metadata: option_view(self.metadata),
            length: self.length,
            data: self.data@,
        }
    }
}

impl BackupContentView {
    /// The record of zero values.
    pub open spec fn zero() -> BackupContentView {
        BackupContentView { checksum: Seq::empty(), metadata: None, length: 0, data: Seq::empty() }
    }
}

impl Default for BackupContent {
    /// The record of zero values, which is what no bytes at all decode to.
    fn default() -> (c: BackupContent)
        ensures
            c@ == BackupContentView::zero(),
    {
        BackupContent { checksum: Vec::new(), metadata: None, length: 0, data: Vec::new() }
    }
}

/// The first format of a backup: a wrapper around the content.
#[derive(Clone, Debug, PartialEq, Eq)]
pub struct BackupV1 {
    pub content: Option<BackupContent>,
}

/// The mathematical value of a [`BackupV1`].
pub struct BackupV1View {
    pub content: Option<BackupContentView>,
}

impl View for BackupV1 {
    type V = BackupV1View;

    open spec fn view(&self) -> BackupV1View {
        BackupV1View { content: option_view(self.content) }
    }
}

impl Default for BackupV1 {
    /// The record without content, which is what no bytes at all decode to.
    fn default() -> (v: BackupV1)
        ensures
            v@ == (BackupV1View { content: None }),
    {
        BackupV1 { content: None }
    }
}

/// The envelope of a backup: at most one format.
#[derive(Clone, Debug, PartialEq, Eq)]
pub struct Backup {
    pub backup_version: Option<BackupVersion>,
}

/// The mathematical value of a [`Backup`].
pub struct BackupView {
    pub backup_version: Option<BackupVersionView>,
}

impl View for Backup {
    type V = BackupView;

    open spec fn view(&self) -> BackupView {
        BackupView { backup_version: option_view(self.backup_version) }
    }
}

impl Default for Backup {
    /// The envelope that holds nothing, which is what no bytes at all decode
    /// to.
    fn default() -> (b: Backup)
        ensures
            b@ == (BackupView { backup_version: None }),
    {
        Backup { backup_version: None }
    }
}

} // verus!
