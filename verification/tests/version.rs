use bitbox_backup::version::resolve;
use bitbox_backup::Backup;
use bitbox_backup::BackupContent;
use bitbox_backup::BackupError;
use bitbox_backup::BackupV1;
use bitbox_backup::BackupVersion;

fn some_content() -> BackupContent {
    BackupContent { checksum: vec![1, 2, 3], metadata: None, length: 4, data: vec![5, 6] }
}

#[test]
fn empty_envelope_resolves_to_missing_version() {
    assert_eq!(resolve(Backup { backup_version: None }), Err(BackupError::MissingVersion));
}

#[test]
fn no_bytes_at_all_resolve_to_missing_version() {
    let envelope = Backup::decode(&[]).unwrap();
    assert_eq!(envelope, Backup { backup_version: None });
    assert_eq!(resolve(envelope), Err(BackupError::MissingVersion));
}

#[test]
fn first_format_without_content_resolves_to_empty_content() {
    let envelope = Backup { backup_version: Some(BackupVersion::BackupV1(BackupV1 { content: None })) };
    assert_eq!(resolve(envelope), Err(BackupError::EmptyContent));
    let decoded = Backup::decode(&[0x0a, 0x00]).unwrap();
    assert_eq!(resolve(decoded), Err(BackupError::EmptyContent));
}

#[test]
fn first_format_resolves_to_its_content() {
    let envelope = Backup {
        backup_version: Some(BackupVersion::BackupV1(BackupV1 { content: Some(some_content()) })),
    };
    assert_eq!(resolve(envelope), Ok(some_content()));
}

#[test]
fn unrecognized_version_resolves_to_unsupported_version() {
    let envelope = Backup { backup_version: Some(BackupVersion::Unrecognized(2)) };
    assert_eq!(resolve(envelope), Err(BackupError::UnsupportedVersion));
}

#[test]
fn future_version_tag_decodes_and_then_fails_resolution() {
    let bytes = [0x12, 0x05, 0xde, 0xad, 0xbe, 0xef, 0x00];
    let envelope = Backup::decode(&bytes).unwrap();
    assert_eq!(envelope, Backup { backup_version: Some(BackupVersion::Unrecognized(2)) });
    assert_eq!(resolve(envelope), Err(BackupError::UnsupportedVersion));
}

#[test]
fn future_version_payload_is_not_read_as_the_first_format() {
    let first = Backup {
        backup_version: Some(BackupVersion::BackupV1(BackupV1 { content: Some(some_content()) })),
    };
    let mut bytes = first.encode_to_vec().unwrap();
    assert_eq!(bytes[0], 0x0a);
    bytes[0] = 0x12;
    let envelope = Backup::decode(&bytes).unwrap();
    assert_eq!(envelope, Backup { backup_version: Some(BackupVersion::Unrecognized(2)) });
    assert_eq!(resolve(envelope), Err(BackupError::UnsupportedVersion));
}

#[test]
fn future_version_in_a_group_fails_resolution_too() {
    let envelope = Backup::decode(&[0x13, 0x08, 0x01, 0x14]).unwrap();
    assert_eq!(envelope, Backup { backup_version: Some(BackupVersion::Unrecognized(2)) });
    assert_eq!(resolve(envelope), Err(BackupError::UnsupportedVersion));
}
