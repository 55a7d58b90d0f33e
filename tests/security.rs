use daas::errors::DaaSSecurityError;
use daas::security::{DaaSGuard, RsaPadding};

#[test]
fn test_generate_nonce() {
    let guard = DaaSGuard {};
    let nonce = guard.generate_nonce();
    println!("{:?}", nonce);
    assert_eq!(nonce.len(), 16);
    assert!(nonce.iter().all(|b| b.is_ascii_alphanumeric()));
}

#[test]
fn test_generate_symmetric_key() {
    let guard = DaaSGuard {};
    let key = guard.generate_symmetric_key();
    println!("{:?}", key);
    assert_eq!(key.len(), 16);
}

#[test]
fn test_decrypt_data() {
    let guard = DaaSGuard {};
    let key: &[u8] = &[120, 70, 69, 82, 79, 54, 69, 104, 122, 119, 49, 97, 73, 120, 120, 80];
    let nonce: &[u8] = &[116, 85, 83, 118, 121, 112, 103, 50, 99, 101, 54, 105, 67, 54, 51, 88];
    let message_received: &[u8] = &[89, 60, 190, 161, 62, 26, 88, 4, 100, 161, 230, 105, 14, 4, 162, 163];

    match guard.decrypt_data(key.to_vec(), Some(&nonce), message_received.to_vec()) {
        Ok(msg) => {
            assert_eq!("_test123!# ".to_string(), String::from_utf8(msg).unwrap());
        }
        Err(_err) => {
            assert!(false);
        }
    }
}

#[test]
fn test_encrypt_data() {
    let guard = DaaSGuard {};
    let key = guard.generate_symmetric_key();
    let nonce = guard.generate_nonce();
    let message_sent: Vec<u8> = String::from("_test123!# ").into_bytes();

    match guard.encrypt_data(key.clone(), Some(&nonce), message_sent.clone()) {
        Ok(msg) => {
            assert_ne!(msg, message_sent);
            let back = guard.decrypt_data(key, Some(&nonce), msg).unwrap();
            assert_eq!(back, message_sent);
        }
        Err(_err) => {
            assert!(false);
        }
    }
}

#[test]
fn decrypt_with_wrong_key_fails() {
    let guard = DaaSGuard {};
    let nonce: &[u8] = &[116, 85, 83, 118, 121, 112, 103, 50, 99, 101, 54, 105, 67, 54, 51, 88];
    let key: &[u8] = &[120, 70, 69, 82, 79, 54, 69, 104, 122, 119, 49, 97, 73, 120, 120, 80];
    let err = guard.decrypt_data(key.to_vec(), Some(&nonce), vec![1, 2, 3]).unwrap_err();
    assert!(matches!(err, DaaSSecurityError::DecryptionError));
}

#[test]
fn aes_with_wrong_sizes_or_no_nonce_fails() {
    let guard = DaaSGuard {};
    let key = guard.generate_symmetric_key();
    let nonce = guard.generate_nonce();
    assert_eq!(guard.encrypt_data(b"short".to_vec(), Some(&nonce), b"x".to_vec()), Err(DaaSSecurityError::EncryptionError));
    assert_eq!(guard.encrypt_data(key.clone(), Some(&nonce[..8]), b"x".to_vec()), Err(DaaSSecurityError::EncryptionError));
    assert_eq!(guard.encrypt_data(key.clone(), None, b"x".to_vec()), Err(DaaSSecurityError::EncryptionError));
    assert_eq!(guard.decrypt_data(b"short".to_vec(), Some(&nonce), vec![0; 16]), Err(DaaSSecurityError::DecryptionError));
    assert_eq!(guard.decrypt_data(key, None, vec![0; 16]), Err(DaaSSecurityError::DecryptionError));
}

#[test]
fn clean_decrypted_drops_nul_bytes() {
    let guard = DaaSGuard {};
    assert_eq!(guard.clean_decrypted(vec![0, 65, 0, 0, 66, 7, 0]), vec![65, 66, 7]);
    assert_eq!(guard.clean_decrypted(Vec::new()), Vec::<u8>::new());
}

#[test]
fn test_generate_keypair() {
    let guard = DaaSGuard {};
    let keypair = guard.generate_keypair();
    assert!(keypair.is_ok());
}

#[test]
fn symmetric_key_round_trip_through_rsa() {
    let guard = DaaSGuard {};
    let (priv_key, pub_key, size) = guard.generate_keypair().unwrap();
    assert_eq!(size, 256);
    let key = guard.generate_symmetric_key();

    let encrypted_key = guard.encrypt_symmetric_key(pub_key, key.clone(), RsaPadding::Pkcs1).unwrap();
    assert_eq!(encrypted_key.len(), 256);

    let decrypted_key = guard.decrypt_symmetric_key(priv_key, encrypted_key, RsaPadding::Pkcs1).unwrap();
    assert_eq!(decrypted_key.len(), 16);
    assert_eq!(decrypted_key, key);
}

#[test]
fn rsa_with_unreadable_key_reports_bad_key_pair() {
    let guard = DaaSGuard {};
    let err = guard.decrypt_symmetric_key(b"not a key".to_vec(), vec![1, 2, 3], RsaPadding::Pkcs1).unwrap_err();
    assert_eq!(err, DaaSSecurityError::BadKeyPairError);
    let err = guard.encrypt_symmetric_key(b"not a key".to_vec(), vec![1, 2, 3], RsaPadding::Pkcs1).unwrap_err();
    assert_eq!(err, DaaSSecurityError::BadKeyPairError);
}
