use bitbox_backup::checksum::verify;
use bitbox_backup::container::create;
use bitbox_backup::container::load;
use bitbox_backup::container::unseal;
use bitbox_backup::container::Loaded;
use bitbox_backup::version::resolve;
use bitbox_backup::Backup;
use bitbox_backup::BackupContent;
use bitbox_backup::BackupData;
use bitbox_backup::BackupError;
use bitbox_backup::BackupMetaData;
use bitbox_backup::BackupV1;
use bitbox_backup::BackupVersion;

const NEW_BACKUP: [u8; 117] = [
    0x0a, 0x73, 0x0a, 0x71, 0x0a, 0x20, 0xbd, 0x3e, 0x2b, 0x5a, 0x72, 0xfe, 0xd4, 0x7f, 0x6d, 0x1f,
    0x9f, 0x95, 0x5f, 0x87, 0xdd, 0xc9, 0x06, 0x5f, 0xaf, 0xd6, 0xfa, 0xf6, 0x85, 0xce, 0x64, 0x8d,
    0xaf, 0x92, 0x5c, 0x23, 0xf1, 0xa6, 0x12, 0x19, 0x08, 0x91, 0xbe, 0xc6, 0xfb, 0x05, 0x12, 0x11,
    0x74, 0x65, 0x73, 0x74, 0x20, 0x73, 0x64, 0x20, 0x63, 0x61, 0x72, 0x64, 0x20, 0x6e, 0x61, 0x6d,
    0x65, 0x22, 0x32, 0x08, 0x20, 0x12, 0x20, 0x01, 0x02, 0x03, 0x04, 0x05, 0x06, 0x07, 0x08, 0x09,
    0x0a, 0x0b, 0x0c, 0x0d, 0x0e, 0x0f, 0x10, 0x11, 0x12, 0x13, 0x14, 0x15, 0x16, 0x17, 0x18, 0x19,
    0x1a, 0x1b, 0x1c, 0x1d, 0x1e, 0x1f, 0x20, 0x18, 0x91, 0xbe, 0xc6, 0xfb, 0x05, 0x22, 0x06, 0x76,
    0x39, 0x2e, 0x32, 0x2e, 0x30,
];

const OLD_BACKUP: [u8; 119] = [
    0x0a, 0x75, 0x0a, 0x73, 0x0a, 0x20, 0xfd, 0xfd, 0x7d, 0xbf, 0xbe, 0x28, 0x78, 0xb9, 0x2a, 0xef,
    0x9c, 0x07, 0xfb, 0xf8, 0x23, 0x87, 0x47, 0x67, 0x37, 0xbd, 0x3d, 0x84, 0x4e, 0x0b, 0x02, 0x11,
    0xb5, 0xfd, 0xae, 0x44, 0xd9, 0x9a, 0x12, 0x19, 0x08, 0x91, 0xbe, 0xc6, 0xfb, 0x05, 0x12, 0x11,
    0x74, 0x65, 0x73, 0x74, 0x20, 0x73, 0x64, 0x20, 0x63, 0x61, 0x72, 0x64, 0x20, 0x6e, 0x61, 0x6d,
    0x65, 0x18, 0x34, 0x22, 0x32, 0x08, 0x20, 0x12, 0x20, 0x01, 0x02, 0x03, 0x04, 0x05, 0x06, 0x07,
    0x08, 0x09, 0x0a, 0x0b, 0x0c, 0x0d, 0x0e, 0x0f, 0x10, 0x11, 0x12, 0x13, 0x14, 0x15, 0x16, 0x17,
    0x18, 0x19, 0x1a, 0x1b, 0x1c, 0x1d, 0x1e, 0x1f, 0x20, 0x18, 0x91, 0xbe, 0xc6, 0xfb, 0x05, 0x22,
    0x06, 0x76, 0x39, 0x2e, 0x32, 0x2e, 0x30,
];

const BACKUP_WITH_LONG_BUFFER: [u8; 81] = [
    0x0a, 0x4f, 0x0a, 0x4d, 0x0a, 0x20, 0x64, 0x0b, 0xba, 0x8a, 0xe0, 0x6a, 0x9b, 0x52, 0x7e, 0x61,
    0x9a, 0x1e, 0xb0, 0x4e, 0x12, 0x8b, 0x21, 0x40, 0x1e, 0xd3, 0xf6, 0x98, 0x89, 0x1b, 0x8d, 0x27,
    0x0c, 0x44, 0xfb, 0xb1, 0x46, 0xb7, 0x22, 0x29, 0x08, 0x10, 0x12, 0x20, 0x01, 0x02, 0x03, 0x04,
    0x05, 0x06, 0x07, 0x08, 0x09, 0x0a, 0x0b, 0x0c, 0x0d, 0x0e, 0x0f, 0x10, 0x11, 0x12, 0x13, 0x14,
    0x15, 0x16, 0x17, 0x18, 0x19, 0x1a, 0x1b, 0x1c, 0x1d, 0x1e, 0x1f, 0x20, 0x18, 0x07, 0x22, 0x01,
    0x67,
];

fn the_meta() -> BackupMetaData {
    BackupMetaData { timestamp: 1601281809, name: String::from("test sd card name"), mode: 0 }
}

fn the_data() -> BackupData {
    BackupData {
        seed_length: 32,
        seed: (1..=32).collect(),
        birthdate: 1601281809,
        generator: String::from("v9.2.0"),
    }
}

fn the_loaded() -> Loaded {
    Loaded {
        seed: (1..=32).collect(),
        birthdate: 1601281809,
        generator: String::from("v9.2.0"),
        metadata: Some(the_meta()),
    }
}

fn wrap(content: BackupContent) -> Vec<u8> {
    Backup { backup_version: Some(BackupVersion::BackupV1(BackupV1 { content: Some(content) })) }
        .encode_to_vec()
        .unwrap()
}

#[test]
fn create_writes_the_expected_bytes() {
    assert_eq!(create(Some(the_meta()), &the_data()), Some(NEW_BACKUP.to_vec()));
}

#[test]
fn create_writes_a_legacy_length_of_zero() {
    let bytes = create(Some(the_meta()), &the_data()).unwrap();
    let content = resolve(Backup::decode(&bytes).unwrap()).unwrap();
    assert_eq!(content.length, 0);
    assert!(verify(&content));
    assert_eq!(content.data, the_data().encode_to_vec());
}

#[test]
fn create_refuses_a_secret_that_does_not_fit_its_buffer() {
    let bad = BackupData { seed_length: 33, ..the_data() };
    assert_eq!(create(Some(the_meta()), &bad), None);
    assert_eq!(create(None, &bad), None);
}

#[test]
fn load_reads_back_what_create_wrote() {
    assert_eq!(load(&NEW_BACKUP), Ok(the_loaded()));
    let bytes = create(Some(the_meta()), &the_data()).unwrap();
    assert_eq!(load(&bytes), Ok(the_loaded()));
}

#[test]
fn load_reads_back_a_backup_without_metadata() {
    let bytes = create(None, &the_data()).unwrap();
    assert_eq!(load(&bytes), Ok(Loaded { metadata: None, ..the_loaded() }));
}

#[test]
fn load_reads_back_many_backups() {
    for seed_len in [0usize, 1, 16, 32, 64, 200] {
        for keep in [0usize, 1, 16, 32] {
            if keep > seed_len {
                continue;
            }
            for meta in [None, Some(the_meta()), Some(BackupMetaData { timestamp: 0, name: String::new(), mode: 9 })] {
                let seed: Vec<u8> = (0..seed_len).map(|i| (255 - i) as u8).collect();
                let data = BackupData {
                    seed_length: keep as u32,
                    seed: seed.clone(),
                    birthdate: 42,
                    generator: String::from("gen"),
                };
                let bytes = create(meta.clone(), &data).unwrap();
                assert_eq!(
                    load(&bytes),
                    Ok(Loaded {
                        seed: seed[..keep].to_vec(),
                        birthdate: 42,
                        generator: String::from("gen"),
                        metadata: meta,
                    })
                );
            }
        }
    }
}

#[test]
fn load_reads_a_legacy_backup() {
    assert_eq!(load(&OLD_BACKUP), Ok(the_loaded()));
}

#[test]
fn load_gives_only_the_secret_of_a_longer_buffer() {
    let loaded = load(&BACKUP_WITH_LONG_BUFFER).unwrap();
    assert_eq!(loaded.seed.len(), 16);
    assert_eq!(loaded.seed, (1..=16).collect::<Vec<u8>>());
    assert_eq!(loaded.birthdate, 7);
    assert_eq!(loaded.generator, "g");
    assert_eq!(loaded.metadata, None);
}

#[test]
fn load_of_a_long_buffer_agrees_with_create() {
    let data = BackupData { seed_length: 16, seed: (1..=32).collect(), birthdate: 7, generator: String::from("g") };
    assert_eq!(create(None, &data), Some(BACKUP_WITH_LONG_BUFFER.to_vec()));
}

#[test]
fn load_of_no_bytes_is_missing_version() {
    assert_eq!(load(&[]), Err(BackupError::MissingVersion));
}

#[test]
fn load_of_an_empty_first_format_is_empty_content() {
    assert_eq!(load(&[0x0a, 0x00]), Err(BackupError::EmptyContent));
}

#[test]
fn load_of_a_future_version_is_unsupported_version() {
    assert_eq!(load(&[0x12, 0x03, 0xde, 0xad, 0xbe]), Err(BackupError::UnsupportedVersion));
    let mut retagged = NEW_BACKUP.to_vec();
    retagged[0] = 0x12;
    assert_eq!(load(&retagged), Err(BackupError::UnsupportedVersion));
}

#[test]
fn load_of_malformed_bytes_is_malformed_encoding() {
    assert_eq!(load(&[0x0a]), Err(BackupError::MalformedEncoding));
    assert_eq!(load(&NEW_BACKUP[..116]), Err(BackupError::MalformedEncoding));
    assert_eq!(load(&NEW_BACKUP[..1]), Err(BackupError::MalformedEncoding));
    let mut twice = NEW_BACKUP.to_vec();
    twice.extend_from_slice(&NEW_BACKUP);
    assert_eq!(load(&twice), Err(BackupError::MalformedEncoding));
}

#[test]
fn load_of_a_tampered_seed_is_checksum_mismatch() {
    for i in 71..103 {
        let mut tampered = NEW_BACKUP.to_vec();
        tampered[i] ^= 0x01;
        assert_eq!(load(&tampered), Err(BackupError::ChecksumMismatch), "byte {}", i);
    }
}

#[test]
fn load_of_a_tampered_checksum_is_checksum_mismatch() {
    for i in 6..38 {
        let mut tampered = NEW_BACKUP.to_vec();
        tampered[i] ^= 0x80;
        assert_eq!(load(&tampered), Err(BackupError::ChecksumMismatch), "byte {}", i);
    }
}

#[test]
fn load_of_any_changed_byte_never_succeeds_with_other_contents() {
    let mut failed = 0;
    for i in 0..NEW_BACKUP.len() {
        for bit in 0..8 {
            let mut tampered = NEW_BACKUP.to_vec();
            tampered[i] ^= 1 << bit;
            match load(&tampered) {
                Ok(loaded) => assert_eq!(loaded, the_loaded(), "byte {} bit {}", i, bit),
                Err(BackupError::UnknownEnumValue) => panic!("byte {} bit {}", i, bit),
                Err(_) => failed += 1,
            }
        }
    }
    assert!(failed > 900);
}

#[test]
fn load_of_a_legacy_backup_with_its_length_zeroed_is_checksum_mismatch() {
    let mut content = resolve(Backup::decode(&OLD_BACKUP).unwrap()).unwrap();
    assert_eq!(content.length, 52);
    content.length = 0;
    assert_eq!(load(&wrap(content)), Err(BackupError::ChecksumMismatch));
}

#[test]
fn unseal_checks_the_checksum_before_the_data() {
    let bad = BackupContent { checksum: vec![0; 32], metadata: None, length: 0, data: vec![0xff] };
    assert_eq!(unseal(bad), Err(BackupError::ChecksumMismatch));
}

#[test]
fn unseal_of_authentic_data_that_does_not_decode_is_malformed_encoding() {
    let content = BackupContent::with_checksum(None, 0, vec![0xff]);
    assert!(verify(&content));
    assert_eq!(unseal(content.clone()), Err(BackupError::MalformedEncoding));
    assert_eq!(load(&wrap(content)), Err(BackupError::MalformedEncoding));
}

#[test]
fn unseal_of_authentic_data_whose_secret_does_not_fit_is_malformed_encoding() {
    let data = BackupData { seed_length: 40, ..the_data() };
    let content = BackupContent::with_checksum(Some(the_meta()), 0, data.encode_to_vec());
    assert!(verify(&content));
    assert_eq!(unseal(content.clone()), Err(BackupError::MalformedEncoding));
    assert_eq!(load(&wrap(content)), Err(BackupError::MalformedEncoding));
}

#[test]
fn unseal_gives_the_secret_and_what_belongs_to_it() {
    let content = BackupContent::with_checksum(Some(the_meta()), 0, the_data().encode_to_vec());
    assert_eq!(unseal(content), Ok(the_loaded()));
}

#[test]
fn unseal_of_empty_data_gives_an_empty_secret() {
    let content = BackupContent::with_checksum(None, 0, Vec::new());
    assert_eq!(
        unseal(content),
        Ok(Loaded { seed: Vec::new(), birthdate: 0, generator: String::new(), metadata: None })
    );
}
