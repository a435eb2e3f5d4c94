use solana_lock_contract::le::{read_u64, signed_of, unsigned_of, write_u64};
use solana_lock_contract::{Vault, VaultError, RECORD_LEN, UNLOCK_TIME};

fn sample_owner() -> [u8; 32] {
    let mut owner = [0u8; 32];
    for (i, byte) in owner.iter_mut().enumerate() {
        *byte = (i as u8) + 1;
    }
    owner
}

fn sample_vault() -> Vault {
    Vault { owner: sample_owner(), unlock_time: UNLOCK_TIME, balance: 1_000_000, is_initialized: true }
}

fn sample_bytes() -> Vec<u8> {
    let mut bytes = sample_owner().to_vec();
    bytes.extend_from_slice(&[128, 73, 39, 105, 0, 0, 0, 0]);
    bytes.extend_from_slice(&[64, 66, 15, 0, 0, 0, 0, 0]);
    bytes.push(1);
    bytes
}

fn assert_same(a: &Vault, b: &Vault) {
    assert_eq!(a.owner, b.owner);
    assert_eq!(a.unlock_time, b.unlock_time);
    assert_eq!(a.balance, b.balance);
    assert_eq!(a.is_initialized, b.is_initialized);
}

#[test]
fn record_len_is_49() {
    assert_eq!(RECORD_LEN, 49);
    assert_eq!(RECORD_LEN, 32 + 8 + 8 + 1);
}

#[test]
fn unlock_time_constant() {
    assert_eq!(UNLOCK_TIME, 1764182400);
}

#[test]
fn pack_writes_the_fixed_layout() {
    let mut buffer = vec![0xAAu8; RECORD_LEN];
    sample_vault().pack_into_slice(&mut buffer);
    assert_eq!(buffer, sample_bytes());
}

#[test]
fn unpack_reads_the_fixed_layout() {
    let vault = Vault::unpack_from_slice(&sample_bytes()).unwrap();
    assert_same(&vault, &sample_vault());
}

#[test]
fn pack_then_unpack_round_trips() {
    let records = [
        sample_vault(),
        Vault { owner: [0xFF; 32], unlock_time: i64::MIN, balance: u64::MAX, is_initialized: false },
        Vault { owner: [0; 32], unlock_time: i64::MAX, balance: 0, is_initialized: true },
        Vault { owner: [7; 32], unlock_time: -1, balance: 1, is_initialized: true },
        Vault::default(),
    ];
    for record in records.iter() {
        let mut buffer = vec![0x55u8; RECORD_LEN];
        record.pack_into_slice(&mut buffer);
        let back = Vault::unpack_from_slice(&buffer).unwrap();
        assert_same(&back, record);
    }
}

#[test]
fn negative_unlock_time_is_twos_complement() {
    let vault = Vault { owner: [0; 32], unlock_time: -2, balance: 0, is_initialized: false };
    let mut buffer = vec![0u8; RECORD_LEN];
    vault.pack_into_slice(&mut buffer);
    assert_eq!(&buffer[32..40], &[254, 255, 255, 255, 255, 255, 255, 255]);
    assert_eq!(Vault::unpack_from_slice(&buffer).unwrap().unlock_time, -2);
}

#[test]
fn unpack_rejects_short_buffers() {
    for len in [0usize, 1, 40, 48] {
        let buffer = vec![0u8; len];
        assert!(matches!(Vault::unpack_from_slice(&buffer), Err(VaultError::MalformedRecord)));
    }
}

#[test]
fn unpack_accepts_exact_and_longer_buffers() {
    let mut bytes = sample_bytes();
    assert!(Vault::unpack_from_slice(&bytes).is_ok());
    bytes.extend_from_slice(&[9, 9, 9]);
    let vault = Vault::unpack_from_slice(&bytes).unwrap();
    assert_same(&vault, &sample_vault());
}

#[test]
fn zeroed_buffer_decodes_to_the_zero_record() {
    let vault = Vault::unpack_from_slice(&vec![0u8; RECORD_LEN]).unwrap();
    assert_same(&vault, &Vault::default());
    assert!(!vault.is_initialized());
    assert_eq!(vault.owner, [0u8; 32]);
    assert_eq!(vault.unlock_time, 0);
    assert_eq!(vault.balance, 0);
}

#[test]
fn any_nonzero_flag_byte_means_initialized() {
    let mut bytes = sample_bytes();
    bytes[48] = 7;
    assert!(Vault::unpack_from_slice(&bytes).unwrap().is_initialized());
    bytes[48] = 255;
    assert!(Vault::unpack_from_slice(&bytes).unwrap().is_initialized());
    bytes[48] = 0;
    assert!(!Vault::unpack_from_slice(&bytes).unwrap().is_initialized());
}

#[test]
fn pack_rejects_short_buffers_and_leaves_them() {
    for len in [0usize, 1, 40, 48] {
        let mut buffer = vec![0x77u8; len];
        assert!(matches!(sample_vault().pack(&mut buffer), Err(VaultError::BufferTooSmall)));
        assert_eq!(buffer, vec![0x77u8; len]);
    }
}

#[test]
fn pack_keeps_length_and_trailing_bytes() {
    let mut buffer = vec![0xEEu8; RECORD_LEN + 5];
    assert!(sample_vault().pack(&mut buffer).is_ok());
    assert_eq!(buffer.len(), RECORD_LEN + 5);
    assert_eq!(&buffer[..RECORD_LEN], &sample_bytes()[..]);
    assert_eq!(&buffer[RECORD_LEN..], &[0xEE; 5]);
}

#[test]
fn is_initialized_reads_the_flag() {
    assert!(sample_vault().is_initialized());
    assert!(!Vault::default().is_initialized());
}

#[test]
fn write_u64_is_little_endian() {
    let mut buffer = vec![0xCCu8; 12];
    write_u64(&mut buffer, 2, 0x0102030405060708);
    assert_eq!(buffer, vec![0xCC, 0xCC, 8, 7, 6, 5, 4, 3, 2, 1, 0xCC, 0xCC]);
    write_u64(&mut buffer, 4, u64::MAX);
    assert_eq!(buffer, vec![0xCC, 0xCC, 8, 7, 255, 255, 255, 255, 255, 255, 255, 255]);
}

#[test]
fn read_u64_is_little_endian() {
    let buffer = [0u8, 8, 7, 6, 5, 4, 3, 2, 1, 0];
    assert_eq!(read_u64(&buffer, 1), 0x0102030405060708);
    assert_eq!(read_u64(&[64, 66, 15, 0, 0, 0, 0, 0], 0), 1_000_000);
    assert_eq!(read_u64(&[255; 8], 0), u64::MAX);
    assert_eq!(read_u64(&[0; 8], 0), 0);
}

#[test]
fn read_u64_agrees_with_std() {
    for value in [0u64, 1, 255, 256, 1_000_000, 1 << 63, u64::MAX, 0xDEADBEEFCAFEF00D] {
        assert_eq!(read_u64(&value.to_le_bytes(), 0), value);
        let mut buffer = [0u8; 8];
        write_u64(&mut buffer, 0, value);
        assert_eq!(buffer, value.to_le_bytes());
    }
}

#[test]
fn signed_and_unsigned_patterns() {
    assert_eq!(unsigned_of(0), 0);
    assert_eq!(unsigned_of(1), 1);
    assert_eq!(unsigned_of(-1), u64::MAX);
    assert_eq!(unsigned_of(i64::MAX), 0x7FFF_FFFF_FFFF_FFFF);
    assert_eq!(unsigned_of(i64::MIN), 0x8000_0000_0000_0000);
    assert_eq!(signed_of(0), 0);
    assert_eq!(signed_of(u64::MAX), -1);
    assert_eq!(signed_of(0x7FFF_FFFF_FFFF_FFFF), i64::MAX);
    assert_eq!(signed_of(0x8000_0000_0000_0000), i64::MIN);
    for value in [i64::MIN, -1764182400, -1, 0, 1, 1764182400, i64::MAX] {
        assert_eq!(unsigned_of(value), value as u64);
        assert_eq!(signed_of(unsigned_of(value)), value);
        assert_eq!(i64::from_le_bytes(unsigned_of(value).to_le_bytes()), value);
    }
}

#[test]
fn default_vault_is_the_zero_record() {
    let vault = Vault::default();
    assert_eq!(vault.owner, [0u8; 32]);
    assert_eq!(vault.unlock_time, 0);
    assert_eq!(vault.balance, 0);
    assert!(!vault.is_initialized);
    let mut buffer = vec![1u8; RECORD_LEN];
    vault.pack_into_slice(&mut buffer);
    assert_eq!(buffer, vec![0u8; RECORD_LEN]);
}
