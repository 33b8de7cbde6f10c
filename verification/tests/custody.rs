use openxai_indexer::custody::{EntropyValidator, SecureMemory, SecureMemoryInner, SecurePrivateKey};
use openxai_indexer::errors::SecurityError;

#[test]
fn test_memory_corruption_detection() {
    let mut memory = SecureMemory::new(64, false).unwrap();
    let test_data = b"corruption_test";

    memory.write(test_data).unwrap();

    // Memory should be intact
    assert!(memory.read().is_ok());
}

#[test]
fn test_secure_private_key() {
    // Create a string with sufficient entropy (at least 16 unique bytes)
    let key_string = "ABCDEFGHIJKLMNOPQRSTUVWXYZabcdefghijklmnopqrstuvwxyz0123456789!@";
    let key = SecurePrivateKey::new(key_string.as_bytes()).unwrap();

    let result = key.with_key(|bytes| bytes.len()).unwrap();

    assert_eq!(result, 64); // 64 characters
}

#[test]
fn test_key_operations() {
    // Create a string with sufficient entropy (at least 16 unique bytes)
    let key_string = "ZYXWVUTSRQPONMLKJIHGFEDCBAzyxwvutsrqponmlkjihgfedcba9876543210#$";
    let key = SecurePrivateKey::new(key_string.as_bytes()).unwrap();

    // Test key access
    let result = key.with_key(|bytes| bytes.len()).unwrap();

    assert_eq!(result, 64); // 64 characters
}

#[test]
fn test_nonce_uniqueness() {
    let mut memory = SecureMemory::new(128, false).unwrap();
    let test_data = b"test_data_for_nonce";

    // Write same data multiple times
    memory.write(test_data).unwrap();
    let encrypted1 = memory.read_raw().unwrap();

    memory.write(test_data).unwrap();
    let encrypted2 = memory.read_raw().unwrap();

    // Encrypted data should be different due to different nonces
    assert_ne!(
        encrypted1, encrypted2,
        "Encrypted data should differ with different nonces"
    );

    // But both should decrypt to the same plaintext
    let decrypted1 = memory.read().unwrap();
    memory.write(test_data).unwrap(); // Write again to test second decryption
    let decrypted2 = memory.read().unwrap();
    assert_eq!(decrypted1, decrypted2);
    assert_eq!(&decrypted1, test_data);
}

#[test]
fn test_encryption_decryption_cycle() {
    let mut memory = SecureMemory::new(128, false).unwrap();
    let test_data = b"test_encryption_decryption_cycle_data";

    // Write and read back
    memory.write(test_data).unwrap();
    let decrypted = memory.read().unwrap();

    // Should decrypt to original data
    assert_eq!(&decrypted, test_data);
}

#[test]
fn test_canary_buffer_overflow_detection() {
    let mut memory = SecureMemory::new(32, false).unwrap();
    let test_data = b"test";

    // Write normal data - should pass
    memory.write(test_data).unwrap();

    // Simulate buffer overflow by corrupting the first byte of the end
    // canary, right past the data zone
    let capacity = memory.capacity();
    let original = memory.guard_byte(16 + capacity);
    let corrupt_value = if original == 0xFF { 0x00 } else { 0xFF };
    memory.overwrite_guard_byte(16 + capacity, corrupt_value);

    // Verification should now fail
    let result = memory.read();
    assert!(result.is_err());
    if let Err(SecurityError::MemoryCorruption) = result {
        // Expected error
    } else {
        panic!("Expected MemoryCorruption error");
    }
}

#[test]
fn test_key_zeroization_on_drop() {
    let canary_values: (Vec<u8>, Vec<u8>);
    let cipher_present: bool;

    {
        let inner = SecureMemoryInner::new(64, false, true).unwrap();

        // Capture values before drop
        canary_values = (inner.canary_start_bytes(), inner.canary_end_bytes());
        cipher_present = inner.has_cipher();

        // Memory goes out of scope here, triggering drop
    }

    // Verify canaries were non-zero before zeroization
    assert_ne!(canary_values.0, vec![0u8; 16]);
    assert_ne!(canary_values.1, vec![0u8; 16]);
    assert!(cipher_present);

    // Note: We can't directly verify memory zeroization after drop
    // since the memory is released, but the library's zeroizing
    // destructor runs on every exit path.
}

#[test]
fn test_entropy_validation() {
    // Test valid entropy
    let buffer = EntropyValidator::secure_random(16).unwrap();

    // Verify buffer is not all zeros
    assert_ne!(buffer, vec![0u8; 16]);

    // Test entropy validation logic
    let all_zeros = [0u8; 16];
    assert!(!EntropyValidator::validate_entropy(&all_zeros));

    let all_same = [0xAA; 16];
    assert!(!EntropyValidator::validate_entropy(&all_same));

    let sequential: [u8; 8] = [0, 1, 2, 3, 4, 5, 6, 7];
    assert!(!EntropyValidator::validate_entropy(&sequential));

    // Test small buffer (should pass)
    let small = [1, 2];
    assert!(EntropyValidator::validate_entropy(&small));
}

#[test]
fn test_round_trip_returns_original_secret() {
    let secret = b"0123456789abcdef0123456789abcdef0123456789abcdef0123456789abcdef";
    let key = SecurePrivateKey::new(secret).unwrap();

    let bytes = key.with_key(|b| b.to_vec()).unwrap();
    assert_eq!(bytes, secret.to_vec());
}

#[test]
fn test_corruption_before_data_zone_detected() {
    let mut memory = SecureMemory::new(64, false).unwrap();
    memory.write(b"some payload").unwrap();

    // Corrupt the last byte of the start canary, immediately before the
    // data zone
    let original = memory.guard_byte(15);
    memory.overwrite_guard_byte(15, original ^ 0xFF);

    let result = memory.read();
    assert!(matches!(result, Err(SecurityError::MemoryCorruption)));
}

#[test]
fn test_custodian_accepts_all_sealable_lengths() {
    // The region is sized for the secret plus the full sealing overhead
    // (nonce and tag), so every secret that passes the entropy screen is
    // accepted, whatever its length
    for len in 32..=96usize {
        let secret: Vec<u8> = (0..len as u8).collect();
        let key = SecurePrivateKey::new(&secret)
            .unwrap_or_else(|e| panic!("length {len} rejected: {e:?}"));
        let bytes = key.with_key(|b| b.to_vec()).unwrap();
        assert_eq!(bytes, secret);
    }
}

#[test]
fn test_write_too_large_rejected() {
    let mut memory = SecureMemory::new(32, false).unwrap();
    // Capacity is 32; sealing adds 28 bytes, so 5 payload bytes cannot fit
    let result = memory.write(b"12345");
    assert!(matches!(result, Err(SecurityError::InvalidInput)));
}

#[test]
fn test_secret_shorter_than_minimum_rejected() {
    let result = SecurePrivateKey::new(b"too-short-secret");
    assert!(matches!(result, Err(SecurityError::InsufficientEntropy)));
}

#[test]
fn test_secret_with_few_distinct_bytes_rejected() {
    // 64 bytes long but only 2 distinct byte values
    let result = SecurePrivateKey::new(&[0xAB, 0xCD].repeat(32));
    assert!(matches!(result, Err(SecurityError::InsufficientEntropy)));
}

#[test]
fn test_new_rejects_zero_size() {
    assert!(matches!(
        SecureMemory::new(0, false),
        Err(SecurityError::InvalidInput)
    ));
}
