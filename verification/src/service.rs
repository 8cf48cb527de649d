//! The storage service: selects the transform a request asked for, applies
//! it to the payload, and persists or retrieves bytes through the file
//! store. Every failure is terminal for its request and surfaced at once.

use vstd::prelude::*;

use crate::crypto::{
    fits_openssl_len, pem_unencrypted, rsa_chunk_count, rsa_decrypt_all, rsa_pair_ok,
    rsa_priv_ok, symmetric_cipher, symmetric_inverse, KeyManager,
};
use crate::store::{safe_name, FileStore};
use crate::types::{Algorithm, StorageError};

verus! {

/// The bytes an encrypting route persists for a payload: its symmetric or
/// asymmetric transform. The absence of a selector is refused, never passed
/// through as a silent plaintext store.
pub fn transform_encrypt(keys: &KeyManager, data: &[u8], algorithm: Option<Algorithm>) -> (r:
    Result<Vec<u8>, StorageError>)
    requires
        algorithm == Some(Algorithm::Aes) ==> data@.len() <= 0x7fff_ffff,
        algorithm == Some(Algorithm::Rsa) ==> fits_openssl_len(keys.rsa_pub@)
            && fits_openssl_len(keys.rsa_priv@),
    ensures
        r == Err::<Vec<u8>, StorageError>(StorageError::MissingAlgorithm) <==> algorithm is None,
        algorithm == Some(Algorithm::Aes) ==> {
            &&& r is Ok
            &&& (r matches Ok(c) ==> c@ == symmetric_cipher(keys.aes_key@, data@)
                && c@.len() == data@.len() && symmetric_inverse(keys.aes_key@, c@) == data@)
        },
        algorithm == Some(Algorithm::Rsa) ==> {
            &&& (pem_unencrypted(keys.rsa_pub@) && rsa_pair_ok(keys.rsa_pub@, keys.rsa_priv@)
                && data@.len() == 0 ==> r is Ok)
            &&& (r matches Ok(c) ==> rsa_decrypt_all(keys.rsa_priv@, c@) == Some(data@)
                && c@.len() == 256 * rsa_chunk_count(data@.len()))
            &&& (r == Err::<Vec<u8>, StorageError>(StorageError::KeyParseFailure)
                <==> !(pem_unencrypted(keys.rsa_pub@) && rsa_pair_ok(
                keys.rsa_pub@,
                keys.rsa_priv@,
            )))
            &&& (r matches Err(e) ==> e == StorageError::KeyParseFailure
                || e == StorageError::CipherRejected)
        },
        r matches Err(e) ==> e == StorageError::MissingAlgorithm
            || e == StorageError::KeyParseFailure || e == StorageError::CipherRejected,
{
    match algorithm {
        Some(Algorithm::Aes) => keys.encrypt_aes(data),
        Some(Algorithm::Rsa) => keys.encrypt_rsa(data),
        None => Err(StorageError::MissingAlgorithm),
    }
}

/// The bytes a decrypting route persists for a payload: its symmetric or
/// asymmetric inverse transform. The absence of a selector is refused.
pub fn transform_decrypt(keys: &KeyManager, data: &[u8], algorithm: Option<Algorithm>) -> (r:
    Result<Vec<u8>, StorageError>)
    requires
        algorithm == Some(Algorithm::Aes) ==> data@.len() <= 0x7fff_ffff,
        algorithm == Some(Algorithm::Rsa) ==> fits_openssl_len(keys.rsa_priv@),
    ensures
        r == Err::<Vec<u8>, StorageError>(StorageError::MissingAlgorithm) <==> algorithm is None,
        algorithm == Some(Algorithm::Aes) ==> {
            &&& r is Ok
            &&& (r matches Ok(p) ==> p@ == symmetric_inverse(keys.aes_key@, data@)
                && p@.len() == data@.len())
        },
        algorithm == Some(Algorithm::Rsa) ==> {
            &&& (r == Err::<Vec<u8>, StorageError>(StorageError::InvalidCiphertextLength)
                <==> data@.len() % 256 != 0)
            &&& (data@.len() % 256 == 0 ==> (r == Err::<Vec<u8>, StorageError>(
                StorageError::KeyParseFailure,
            ) <==> !rsa_priv_ok(keys.rsa_priv@)))
            &&& (data@.len() % 256 == 0 && rsa_priv_ok(keys.rsa_priv@) ==> {
                &&& (r is Ok <==> rsa_decrypt_all(keys.rsa_priv@, data@) is Some)
                &&& (r matches Ok(p) ==> rsa_decrypt_all(keys.rsa_priv@, data@) == Some(p@))
                &&& (r is Err ==> r == Err::<Vec<u8>, StorageError>(
                    StorageError::CipherRejected,
                ))
            })
        },
        r matches Err(e) ==> e == StorageError::MissingAlgorithm
            || e == StorageError::InvalidCiphertextLength
            || e == StorageError::KeyParseFailure || e == StorageError::CipherRejected,
{
    match algorithm {
        Some(Algorithm::Aes) => keys.decrypt_aes(data),
        Some(Algorithm::Rsa) => keys.decrypt_rsa(data),
        None => Err(StorageError::MissingAlgorithm),
    }
}

/// The composed subsystem: the key bundle beside the file store. Its
/// observable state is the store's map from names to contents.
pub struct StorageService {
    pub keys: KeyManager,
    pub store: FileStore,
}

impl View for StorageService {
    type V = Map<Seq<char>, Seq<u8>>;

    closed spec fn view(&self) -> Map<Seq<char>, Seq<u8>> {
        self.store@
    }
}

impl StorageService {
    /// The store keeps one current content per name.
    pub closed spec fn wf(&self) -> bool {
        self.store.wf()
    }

    /// A service over an empty store.
    pub fn new(keys: KeyManager) -> (r: StorageService)
        ensures
            r.wf(),
            r.keys == keys,
            r@ == Map::<Seq<char>, Seq<u8>>::empty(),
    {
        StorageService { keys, store: FileStore::new() }
    }

    /// Stores a payload untransformed and reports the stored size.
    pub fn upload_file(&mut self, name: &String, content: Vec<u8>) -> (r: Result<
        usize,
        StorageError,
    >)
        requires
            old(self).wf(),
        ensures
            final(self).wf(),
            final(self).keys == old(self).keys,
            safe_name(name@) ==> r == Ok::<usize, StorageError>(content@.len() as usize)
                && final(self)@ == old(self)@.insert(name@, content@),
            !safe_name(name@) ==> r == Err::<usize, StorageError>(StorageError::InvalidName)
                && final(self)@ == old(self)@,
    {
        let size = content.len();
        match self.store.save_file(name, content) {
            Ok(()) => Ok(size),
            Err(e) => Err(e),
        }
    }

    /// Encrypting route: transform the payload under the selected
    /// algorithm, then persist the ciphertext under the name. A missing
    /// selector is refused before anything is touched.
    pub fn encrypt_sync(&mut self, name: &String, content: &[u8], algorithm: Option<
        Algorithm,
    >) -> (r: Result<usize, StorageError>)
        requires
            old(self).wf(),
            algorithm == Some(Algorithm::Aes) ==> content@.len() <= 0x7fff_ffff,
            algorithm == Some(Algorithm::Rsa) ==> fits_openssl_len(old(self).keys.rsa_pub@)
                && fits_openssl_len(old(self).keys.rsa_priv@),
        ensures
            final(self).wf(),
            final(self).keys == old(self).keys,
            r == Err::<usize, StorageError>(StorageError::MissingAlgorithm)
                <==> algorithm is None,
            r is Err ==> final(self)@ == old(self)@,
            algorithm == Some(Algorithm::Aes) && safe_name(name@) ==> r is Ok,
            algorithm == Some(Algorithm::Aes) && !safe_name(name@) ==> r == Err::<
                usize,
                StorageError,
            >(StorageError::InvalidName),
            algorithm is Some && !safe_name(name@) && r is Err ==> r == Err::<
                usize,
                StorageError,
            >(StorageError::InvalidName) || r == Err::<usize, StorageError>(
                StorageError::KeyParseFailure,
            ) || r == Err::<usize, StorageError>(StorageError::CipherRejected),
            r matches Ok(sz) ==> {
                &&& algorithm is Some
                &&& safe_name(name@)
                &&& final(self)@.contains_key(name@)
                &&& final(self)@ == old(self)@.insert(name@, final(self)@[name@])
                &&& sz == final(self)@[name@].len()
                &&& (algorithm == Some(Algorithm::Aes) ==> final(self)@[name@]
                    == symmetric_cipher(old(self).keys.aes_key@, content@))
                &&& (algorithm == Some(Algorithm::Rsa) ==> rsa_decrypt_all(
                    old(self).keys.rsa_priv@,
                    final(self)@[name@],
                ) == Some(content@) && final(self)@[name@].len() == 256 * rsa_chunk_count(
                    content@.len(),
                ))
            },
            algorithm == Some(Algorithm::Rsa) && !(pem_unencrypted(old(self).keys.rsa_pub@)
                && rsa_pair_ok(old(self).keys.rsa_pub@, old(self).keys.rsa_priv@)) ==> r
                == Err::<usize, StorageError>(StorageError::KeyParseFailure),
            algorithm == Some(Algorithm::Rsa) && pem_unencrypted(old(self).keys.rsa_pub@)
                && rsa_pair_ok(old(self).keys.rsa_pub@, old(self).keys.rsa_priv@)
                && content@.len() == 0 && safe_name(name@) ==> r is Ok,
    {
        let data = match transform_encrypt(&self.keys, content, algorithm) {
            Ok(d) => d,
            Err(e) => {
                return Err(e);
            }
        };
        let size = data.len();
        match self.store.save_file(name, data) {
            Ok(()) => Ok(size),
            Err(e) => Err(e),
        }
    }

    /// Decrypting route: apply the inverse transform under the selected
    /// algorithm, then persist the recovered bytes under the name. A
    /// missing selector is refused before anything is touched.
    pub fn decrypt_sync(&mut self, name: &String, content: &[u8], algorithm: Option<
        Algorithm,
    >) -> (r: Result<usize, StorageError>)
        requires
            old(self).wf(),
            algorithm == Some(Algorithm::Aes) ==> content@.len() <= 0x7fff_ffff,
            algorithm == Some(Algorithm::Rsa) ==> fits_openssl_len(old(self).keys.rsa_priv@),
        ensures
            final(self).wf(),
            final(self).keys == old(self).keys,
            r == Err::<usize, StorageError>(StorageError::MissingAlgorithm)
                <==> algorithm is None,
            r is Err ==> final(self)@ == old(self)@,
            algorithm == Some(Algorithm::Aes) && safe_name(name@) ==> r is Ok,
            algorithm == Some(Algorithm::Aes) && !safe_name(name@) ==> r == Err::<
                usize,
                StorageError,
            >(StorageError::InvalidName),
            algorithm == Some(Algorithm::Rsa) && safe_name(name@) && content@.len() % 256 == 0
                && rsa_priv_ok(old(self).keys.rsa_priv@) && rsa_decrypt_all(
                old(self).keys.rsa_priv@,
                content@,
            ) is Some ==> r is Ok,
            algorithm is Some && !safe_name(name@) && r is Err ==> r == Err::<
                usize,
                StorageError,
            >(StorageError::InvalidName) || r == Err::<usize, StorageError>(
                StorageError::InvalidCiphertextLength,
            ) || r == Err::<usize, StorageError>(StorageError::KeyParseFailure) || r == Err::<
                usize,
                StorageError,
            >(StorageError::CipherRejected),
            r matches Ok(sz) ==> {
                &&& algorithm is Some
                &&& safe_name(name@)
                &&& final(self)@.contains_key(name@)
                &&& final(self)@ == old(self)@.insert(name@, final(self)@[name@])
                &&& sz == final(self)@[name@].len()
                &&& (algorithm == Some(Algorithm::Aes) ==> final(self)@[name@]
                    == symmetric_inverse(old(self).keys.aes_key@, content@))
                &&& (algorithm == Some(Algorithm::Rsa) ==> rsa_decrypt_all(
                    old(self).keys.rsa_priv@,
                    content@,
                ) == Some(final(self)@[name@]))
            },
            algorithm == Some(Algorithm::Rsa) ==> {
                &&& (r == Err::<usize, StorageError>(StorageError::InvalidCiphertextLength)
                    <==> content@.len() % 256 != 0)
                &&& (content@.len() % 256 == 0 ==> (r == Err::<usize, StorageError>(
                    StorageError::KeyParseFailure,
                ) <==> !rsa_priv_ok(old(self).keys.rsa_priv@)))
            },
    {
        let data = match transform_decrypt(&self.keys, content, algorithm) {
            Ok(d) => d,
            Err(e) => {
                return Err(e);
            }
        };
        let size = data.len();
        match self.store.save_file(name, data) {
            Ok(()) => Ok(size),
            Err(e) => Err(e),
        }
    }

    /// Retrieval: the stored bytes exactly as persisted — still encrypted
    /// if they were stored encrypted — or `NotFound` for a name never
    /// stored.
    pub fn download_file(&self, name: &String) -> (r: Result<Vec<u8>, StorageError>)
        requires
            self.wf(),
        ensures
            self@.contains_key(name@) ==> (r matches Ok(c) && c@ == self@[name@]),
            !self@.contains_key(name@) ==> r == Err::<Vec<u8>, StorageError>(
                StorageError::NotFound,
            ),
    {
        self.store.open_file(name)
    }
}

} // verus!
