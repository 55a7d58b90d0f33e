//! Optional protection of payload bytes: symmetric keys and nonces, AES
//! encryption and decryption, and clean-up of decrypted key material.
use vstd::prelude::*;
use crate::errors::DaaSSecurityError;

verus! {

/// Whether a byte is an ASCII letter or digit.
pub open spec fn is_alphanumeric(b: u8) -> bool {
    (48 <= b <= 57) || (65 <= b <= 90) || (97 <= b <= 122)
}

/// The ciphertext of `data` under AES-128 in CBC mode with `key` and `iv`, if
/// the key and IV are acceptable.
pub uninterp spec fn aes_cbc_encrypted(key: Seq<u8>, iv: Seq<u8>, data: Seq<u8>) -> Option<Seq<u8>>;

/// The plaintext of `data` under AES-128 in CBC mode with `key` and `iv`, if
/// the key, IV and padding are acceptable.
pub uninterp spec fn aes_cbc_decrypted(key: Seq<u8>, iv: Seq<u8>, data: Seq<u8>) -> Option<Seq<u8>>;

/// Whether AES-128-CBC can be applied: a 16-byte key, a 16-byte nonce, and
/// data no longer than openssl takes in one call.
pub open spec fn aes_args_ok(key: Seq<u8>, nonce: Option<Seq<u8>>, data: Seq<u8>) -> bool {
    &&& key.len() == 16
    &&& nonce matches Some(n) && n.len() == 16
    &&& data.len() <= i32::MAX
}

/// The view of an optional byte slice.
pub open spec fn nonce_view(nonce: Option<&[u8]>) -> Option<Seq<u8>> {
    match nonce {
        Some(n) => Some(n@),
        None => None,
    }
}

/// Relies on `rand::Rng::sample_iter` with `rand::distributions::Alphanumeric`:
/// each byte drawn is an ASCII letter or digit; `n` are taken.
#[verifier::external_body]
fn random_alphanumeric(n: usize) -> (r: Vec<u8>)
    ensures
        r@.len() == n,
        forall|i: int| 0 <= i < r@.len() ==> is_alphanumeric(#[trigger] r@[i]),
{
    rand::Rng::sample_iter(rand::thread_rng(), &rand::distributions::Alphanumeric).take(n).collect()
}

/// Relies on `openssl::symm::encrypt` with `Cipher::aes_128_cbc()`: for a
/// 16-byte key and IV, the ciphertext, a function of key, IV and data, or an
/// error.
#[verifier::external_body]
fn aes_encrypt(key: &[u8], iv: &[u8], data: &[u8]) -> (r: Option<Vec<u8>>)
    requires
        key@.len() == 16,
        iv@.len() == 16,
        data@.len() <= i32::MAX,
    ensures
        r matches Some(c) ==> aes_cbc_encrypted(key@, iv@, data@) == Some(c@),
        r is None ==> aes_cbc_encrypted(key@, iv@, data@) is None,
{
    openssl::symm::encrypt(openssl::symm::Cipher::aes_128_cbc(), key, Some(iv), data).ok()
}

/// Relies on `openssl::symm::decrypt` with `Cipher::aes_128_cbc()`: for a
/// 16-byte key and IV, the plaintext, a function of key, IV and data, or an
/// error.
#[verifier::external_body]
fn aes_decrypt(key: &[u8], iv: &[u8], data: &[u8]) -> (r: Option<Vec<u8>>)
    requires
        key@.len() == 16,
        iv@.len() == 16,
        data@.len() <= i32::MAX,
    ensures
        r matches Some(c) ==> aes_cbc_decrypted(key@, iv@, data@) == Some(c@),
        r is None ==> aes_cbc_decrypted(key@, iv@, data@) is None,
{
    openssl::symm::decrypt(openssl::symm::Cipher::aes_128_cbc(), key, Some(iv), data).ok()
}

/// The padding scheme of an RSA operation.
#[derive(Debug, Clone, Copy, PartialEq, Eq, Structural)]
pub enum RsaPadding {
    /// No padding.
    NoPadding,
    /// PKCS #1 v1.5 padding.
    Pkcs1,
    /// PKCS #1 OAEP padding.
    Pkcs1Oaep,
}

/// Relies on `openssl::rsa::Rsa::generate` with 2048 bits, written out with
/// `private_key_to_pem`, `public_key_to_pem` and `size`: a fresh random key
/// pair as PEM and the modulus size in bytes (256 for 2048 bits), or `None`
/// on an openssl error.
#[verifier::external_body]
fn rsa_generate_pem() -> (r: Option<(Vec<u8>, Vec<u8>, usize)>)
    ensures
        r matches Some(k) ==> k.2 == 256,
{
    let rsa = openssl::rsa::Rsa::generate(2048).ok()?;
    let private_pem = rsa.private_key_to_pem().ok()?;
    let public_pem = rsa.public_key_to_pem().ok()?;
    Some((private_pem, public_pem, rsa.size() as usize))
}

/// Relies on `openssl::rsa::Rsa::public_key_from_pem` and `public_encrypt`
/// into a buffer one modulus long: the encrypted data, or which step failed.
/// Padding makes the result random.
#[verifier::external_body]
fn rsa_public_encrypt(pub_pem: &[u8], data: &[u8], padding: RsaPadding) -> (r: Result<Vec<u8>, DaaSSecurityError>)
    requires
        data@.len() <= i32::MAX,
    ensures
        r matches Err(e) ==> e == DaaSSecurityError::BadKeyPairError || e == DaaSSecurityError::EncryptionError,
{
    let pad = match padding {
        RsaPadding::NoPadding => openssl::rsa::Padding::NONE,
        RsaPadding::Pkcs1 => openssl::rsa::Padding::PKCS1,
        RsaPadding::Pkcs1Oaep => openssl::rsa::Padding::PKCS1_OAEP,
    };
    let rsa = openssl::rsa::Rsa::public_key_from_pem(pub_pem).map_err(|_| DaaSSecurityError::BadKeyPairError)?;
    let mut out: Vec<u8> = vec![0; rsa.size() as usize];
    rsa.public_encrypt(data, &mut out, pad).map_err(|_| DaaSSecurityError::EncryptionError)?;
    Ok(out)
}

/// Relies on `openssl::rsa::Rsa::private_key_from_pem` and `private_decrypt`
/// into a buffer one modulus long: that whole buffer, or which step failed.
/// An encrypted key may make openssl ask for a passphrase, so nothing is said
/// of the buffer.
#[verifier::external_body]
fn rsa_private_decrypt(priv_pem: &[u8], data: &[u8], padding: RsaPadding) -> (r: Result<Vec<u8>, DaaSSecurityError>)
    requires
        data@.len() <= i32::MAX,
    ensures
        r matches Err(e) ==> e == DaaSSecurityError::BadKeyPairError || e == DaaSSecurityError::DecryptionError,
{
    let pad = match padding {
        RsaPadding::NoPadding => openssl::rsa::Padding::NONE,
        RsaPadding::Pkcs1 => openssl::rsa::Padding::PKCS1,
        RsaPadding::Pkcs1Oaep => openssl::rsa::Padding::PKCS1_OAEP,
    };
    let rsa = openssl::rsa::Rsa::private_key_from_pem(priv_pem).map_err(|_| DaaSSecurityError::BadKeyPairError)?;
    let mut out: Vec<u8> = vec![0; rsa.size() as usize];
    rsa.private_decrypt(data, &mut out, pad).map_err(|_| DaaSSecurityError::DecryptionError)?;
    Ok(out)
}

/// The security guard of the service.
pub struct DaaSGuard {}

impl DaaSGuard {
    /// A fresh RSA key pair: private key and public key as PEM, and the size
    /// of the modulus in bytes.
    pub fn generate_keypair(&self) -> (r: Result<(Vec<u8>, Vec<u8>, usize), DaaSSecurityError>)
        ensures
            r matches Ok(k) ==> k.2 == 256,
            r matches Err(e) ==> e == DaaSSecurityError::BadKeyPairError,
    {
        match rsa_generate_pem() {
            Some(k) => Ok(k),
            None => Err(DaaSSecurityError::BadKeyPairError),
        }
    }

    /// Encrypts a symmetric key with the RSA public key in `pub_key`.
    pub fn encrypt_symmetric_key(&self, pub_key: Vec<u8>, key_to_encrypt: Vec<u8>, padding: RsaPadding) -> (r: Result<
        Vec<u8>,
        DaaSSecurityError,
    >)
        ensures
            r matches Err(e) ==> e == DaaSSecurityError::BadKeyPairError || e == DaaSSecurityError::EncryptionError,
    {
        if key_to_encrypt.len() > i32::MAX as usize {
            return Err(DaaSSecurityError::EncryptionError);
        }
        rsa_public_encrypt(pub_key.as_slice(), key_to_encrypt.as_slice(), padding)
    }

    /// Decrypts a symmetric key with the RSA private key in `priv_key`, and
    /// drops the NUL bytes of the decrypted buffer (see `clean_decrypted`).
    pub fn decrypt_symmetric_key(&self, priv_key: Vec<u8>, encrypted_key: Vec<u8>, padding: RsaPadding) -> (r: Result<
        Vec<u8>,
        DaaSSecurityError,
    >)
        ensures
            r matches Ok(k) ==> forall|i: int| 0 <= i < k@.len() ==> #[trigger] k@[i] != 0,
            r matches Err(e) ==> e == DaaSSecurityError::BadKeyPairError || e == DaaSSecurityError::DecryptionError,
    {
        if encrypted_key.len() > i32::MAX as usize {
            return Err(DaaSSecurityError::DecryptionError);
        }
        match rsa_private_decrypt(priv_key.as_slice(), encrypted_key.as_slice(), padding) {
            Ok(message) => {
                let k = self.clean_decrypted(message);
                proof {
                    assert forall|i: int| 0 <= i < k@.len() implies #[trigger] k@[i] != 0 by {
                        message@.lemma_filter_pred(|b: u8| b != 0, i);
                    }
                }
                Ok(k)
            },
            Err(e) => Err(e),
        }
    }

    /// A random key of sixteen ASCII letters and digits.
    pub fn generate_symmetric_key(&self) -> (r: Vec<u8>)
        ensures
            r@.len() == 16,
            forall|i: int| 0 <= i < r@.len() ==> is_alphanumeric(#[trigger] r@[i]),
    {
        random_alphanumeric(16)
    }

    /// A random nonce (initialisation vector) of sixteen ASCII letters and
    /// digits.
    pub fn generate_nonce(&self) -> (r: Vec<u8>)
        ensures
            r@.len() == 16,
            forall|i: int| 0 <= i < r@.len() ==> is_alphanumeric(#[trigger] r@[i]),
    {
        random_alphanumeric(16)
    }

    /// Encrypts data with a symmetric key and nonce under AES-128-CBC; a key
    /// or nonce that is not 16 bytes, or no nonce, is an encryption error.
    pub fn encrypt_data(&self, key: Vec<u8>, nonce: Option<&[u8]>, data_to_encrypt: Vec<u8>) -> (r: Result<
        Vec<u8>,
        DaaSSecurityError,
    >)
        ensures
            r is Ok <==> aes_args_ok(key@, nonce_view(nonce), data_to_encrypt@) && aes_cbc_encrypted(
                key@,
                nonce->Some_0@,
                data_to_encrypt@,
            ) is Some,
            r matches Ok(c) ==> aes_cbc_encrypted(key@, nonce->Some_0@, data_to_encrypt@) == Some(c@),
            r matches Err(e) ==> e == DaaSSecurityError::EncryptionError,
    {
        let iv = match nonce {
            Some(n) => n,
            None => {
                return Err(DaaSSecurityError::EncryptionError);
            },
        };
        if key.len() != 16 || iv.len() != 16 || data_to_encrypt.len() > i32::MAX as usize {
            return Err(DaaSSecurityError::EncryptionError);
        }
        match aes_encrypt(key.as_slice(), iv, data_to_encrypt.as_slice()) {
            Some(c) => Ok(c),
            None => Err(DaaSSecurityError::EncryptionError),
        }
    }

    /// Decrypts data with a symmetric key and nonce under AES-128-CBC; a key
    /// or nonce that is not 16 bytes, or no nonce, is a decryption error.
    pub fn decrypt_data(&self, key: Vec<u8>, nonce: Option<&[u8]>, data_to_decrypt: Vec<u8>) -> (r: Result<
        Vec<u8>,
        DaaSSecurityError,
    >)
        ensures
            r is Ok <==> aes_args_ok(key@, nonce_view(nonce), data_to_decrypt@) && aes_cbc_decrypted(
                key@,
                nonce->Some_0@,
                data_to_decrypt@,
            ) is Some,
            r matches Ok(c) ==> aes_cbc_decrypted(key@, nonce->Some_0@, data_to_decrypt@) == Some(c@),
            r matches Err(e) ==> e == DaaSSecurityError::DecryptionError,
    {
        let iv = match nonce {
            Some(n) => n,
            None => {
                return Err(DaaSSecurityError::DecryptionError);
            },
        };
        if key.len() != 16 || iv.len() != 16 || data_to_decrypt.len() > i32::MAX as usize {
            return Err(DaaSSecurityError::DecryptionError);
        }
        match aes_decrypt(key.as_slice(), iv, data_to_decrypt.as_slice()) {
            Some(c) => Ok(c),
            None => Err(DaaSSecurityError::DecryptionError),
        }
    }

    /// The message without its NUL bytes, the rest in order.
    pub fn clean_decrypted(&self, message: Vec<u8>) -> (r: Vec<u8>)
        ensures
            r@ == message@.filter(|b: u8| b != 0),
    {
        let mut out: Vec<u8> = Vec::new();
        let mut i: usize = 0;
        proof {
            reveal(Seq::filter);
            assert(message@.subrange(0, 0).filter(|b: u8| b != 0) =~= Seq::<u8>::empty());
        }
        while i < message.len()
            invariant
                i <= message@.len(),
                out@ == message@.subrange(0, i as int).filter(|b: u8| b != 0),
            decreases message@.len() - i,
        {
            let b = message[i];
            proof {
                reveal(Seq::filter);
                assert(message@.subrange(0, i as int + 1).drop_last() =~= message@.subrange(0, i as int));
            }
            if b != 0 {
                out.push(b);
            }
            i = i + 1;
        }
        proof {
            assert(message@.subrange(0, message@.len() as int) =~= message@);
        }
        out
    }
}

} // verus!
