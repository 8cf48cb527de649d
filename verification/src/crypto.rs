//! Key material and the two reversible byte-to-byte transforms: a
//! counter-mode stream cipher keyed by a digest of the configured secret,
//! and a block-chunked asymmetric cipher under OAEP padding.

use vstd::prelude::*;
use vstd::slice::slice_subrange;

use crate::types::StorageError;

verus! {

/// The constant nonce shared by every symmetric invocation. Reusing it keeps
/// the transform deterministic (and bit-for-bit compatible with previously
/// written ciphertext) at the cost of keystream reuse across files.
const SALT: [u8; 16] = [102, 0, 21, 56, 172, 34, 123, 32, 45, 250, 6, 42, 80, 66, 190, 200];

/// What `openssl::sha::sha256` returns for the bytes of this text: a digest
/// that depends on the text alone.
pub uninterp spec fn sha256_of(s: Seq<char>) -> Seq<u8>;

/// What `openssl::symm::encrypt` with `Cipher::aes_256_ctr` and the fixed
/// nonce returns for this key and payload.
pub uninterp spec fn aes_ctr_enc(key: Seq<u8>, data: Seq<u8>) -> Seq<u8>;

/// What `openssl::symm::decrypt` with `Cipher::aes_256_ctr` and the fixed
/// nonce returns for this key and payload.
pub uninterp spec fn aes_ctr_dec(key: Seq<u8>, data: Seq<u8>) -> Seq<u8>;

/// The `i`-th byte of the counter-mode keystream under this key and the
/// fixed nonce: a function of key and position alone, XORed onto the
/// payload by both directions of the transform.
pub uninterp spec fn aes_keystream(key: Seq<u8>, i: int) -> u8;

/// Whether both PEM encodings parse under openssl (the private one with an
/// empty passphrase), pass openssl's internal key-consistency check, and
/// describe the public and private halves of one 2048-bit key pair.
pub uninterp spec fn rsa_pair_ok(rsa_pub: Seq<char>, rsa_priv: Seq<char>) -> bool;

/// Whether the PEM encoding parses under openssl, with an empty
/// passphrase, as a 2048-bit private key.
pub uninterp spec fn rsa_priv_ok(rsa_priv: Seq<char>) -> bool;

/// What `RsaRef::private_decrypt` with OAEP padding under this private key
/// recovers from one 256-byte ciphertext block: the recovered bytes, or
/// `None` when the key does not parse or the block is rejected.
pub uninterp spec fn rsa_block_decrypt(rsa_priv: Seq<char>, block: Seq<u8>) -> Option<Seq<u8>>;

/// The symmetric transform as a whole: the stream cipher keyed by the digest
/// of the configured secret.
pub open spec fn symmetric_cipher(secret: Seq<char>, data: Seq<u8>) -> Seq<u8> {
    aes_ctr_enc(sha256_of(secret), data)
}

/// The inverse symmetric transform.
pub open spec fn symmetric_inverse(secret: Seq<char>, data: Seq<u8>) -> Seq<u8> {
    aes_ctr_dec(sha256_of(secret), data)
}

/// The `i`-th keystream byte of the symmetric transform for this secret:
/// every invocation shares it, since the nonce is constant.
pub open spec fn symmetric_keystream(secret: Seq<char>, i: int) -> u8 {
    aes_keystream(sha256_of(secret), i)
}

/// openssl hands buffer lengths to C as `int` and panics past that bound:
/// a text within it cannot trip those length assertions.
pub open spec fn fits_openssl_len(s: Seq<char>) -> bool {
    vstd::utf8::encode_utf8(s).len() <= 0x7fff_ffff
}

/// Keystream law: under one secret, the ciphertexts of two equal-length
/// payloads differ bytewise exactly as the payloads differ, because every
/// invocation of the symmetric transform XORs the same keystream.
pub proof fn lemma_ciphertext_difference(
    secret: Seq<char>,
    p: Seq<u8>,
    q: Seq<u8>,
    c: Seq<u8>,
    d: Seq<u8>,
)
    requires
        p.len() == q.len(),
        c.len() == p.len(),
        d.len() == q.len(),
        forall|i: int| 0 <= i < p.len() ==> c[i] == (p[i] ^ symmetric_keystream(secret, i)),
        forall|i: int| 0 <= i < q.len() ==> d[i] == (q[i] ^ symmetric_keystream(secret, i)),
    ensures
        forall|i: int| 0 <= i < p.len() ==> (c[i] ^ d[i]) == (p[i] ^ q[i]),
{
    assert forall|i: int| 0 <= i < p.len() implies (c[i] ^ d[i]) == (p[i] ^ q[i]) by {
        let a: u8 = p[i];
        let b: u8 = q[i];
        let s: u8 = symmetric_keystream(secret, i);
        assert(((a ^ s) ^ (b ^ s)) == (a ^ b)) by (bit_vector);
    }
}

/// The PEM encryption marker `ENCRYPTED` starts at byte `i` of this text.
pub open spec fn encrypted_marker_at(b: Seq<u8>, i: int) -> bool {
    &&& 0 <= i
    &&& i + 9 <= b.len()
    &&& b[i] == 69u8
    &&& b[i + 1] == 78u8
    &&& b[i + 2] == 67u8
    &&& b[i + 3] == 82u8
    &&& b[i + 4] == 89u8
    &&& b[i + 5] == 80u8
    &&& b[i + 6] == 84u8
    &&& b[i + 7] == 69u8
    &&& b[i + 8] == 68u8
}

/// The PEM text carries no `ENCRYPTED` marker anywhere, so openssl's PEM
/// reader never consults a passphrase callback on it and its parse is a
/// function of the text alone.
pub open spec fn pem_unencrypted(s: Seq<char>) -> bool {
    forall|i: int| !encrypted_marker_at(vstd::utf8::encode_utf8(s), i)
}

/// Decides `pem_unencrypted` for a PEM text.
pub fn pem_is_unencrypted(s: &str) -> (r: bool)
    ensures
        r == pem_unencrypted(s@),
{
    let b = s.as_bytes();
    proof {
        assert(b@ == vstd::utf8::encode_utf8(s@));
    }
    if b.len() < 9 {
        return true;
    }
    let mut i: usize = 0;
    while i <= b.len() - 9
        invariant
            b@ == vstd::utf8::encode_utf8(s@),
            b@.len() >= 9,
            i <= b@.len(),
            forall|j: int| 0 <= j < i ==> !encrypted_marker_at(b@, j),
        decreases b@.len() - i,
    {
        if b[i] == 69 && b[i + 1] == 78 && b[i + 2] == 67 && b[i + 3] == 82 && b[i + 4] == 89
            && b[i + 5] == 80 && b[i + 6] == 84 && b[i + 7] == 69 && b[i + 8] == 68 {
            proof {
                assert(encrypted_marker_at(b@, i as int));
            }
            return false;
        }
        i = i + 1;
    }
    true
}

/// How many 128-byte plaintext chunks a payload of this length occupies;
/// the final chunk may be shorter.
pub open spec fn rsa_chunk_count(len: nat) -> nat {
    (len + 127) / 128
}

/// What chunked asymmetric decryption recovers from a ciphertext: each
/// 256-byte block is decrypted on its own and exactly the bytes it recovered
/// are concatenated, in block order. `None` when the length is not a
/// multiple of the block size or some block is rejected.
pub open spec fn rsa_decrypt_all(rsa_priv: Seq<char>, data: Seq<u8>) -> Option<Seq<u8>>
    decreases data.len(),
{
    if data.len() == 0 {
        Some(Seq::empty())
    } else if data.len() < 256 {
        None
    } else {
        match rsa_block_decrypt(rsa_priv, data.subrange(0, 256)) {
            Some(p) => match rsa_decrypt_all(
                rsa_priv,
                data.subrange(256, data.len() as int),
            ) {
                Some(rest) => Some(p + rest),
                None => None,
            },
            None => None,
        }
    }
}

/// Relies on `openssl::sha::sha256`: a 32-byte digest of the input bytes,
/// depending on the input alone.
#[verifier::external_body]
fn sha256_key(s: &str) -> (r: Vec<u8>)
    ensures
        r@ == sha256_of(s@),
        r@.len() == 32,
{
    openssl::sha::sha256(s.as_bytes()).to_vec()
}

/// Relies on `openssl::symm::encrypt` with `Cipher::aes_256_ctr`: counter
/// mode XORs the payload bytewise with a keystream derived from the key
/// and nonce alone, so the ciphertext is a function of key and payload,
/// keeps the payload's length, equals what `openssl::symm::decrypt` yields
/// for the same input (the two directions perform the same XOR), and
/// `openssl::symm::decrypt` under the same key and nonce recovers the
/// payload. With a 32-byte key, the 16-byte nonce and a payload within
/// openssl's C-int length cap (required here, since the crate panics past
/// it), the one-shot call succeeds; allocation failure aborts rather than
/// returns.
#[verifier::external_body]
fn aes_ctr_encrypt(key: &Vec<u8>, data: &[u8]) -> (r: Option<Vec<u8>>)
    requires
        key@.len() == 32,
        data@.len() <= 0x7fff_ffff,
    ensures
        r is Some,
        r matches Some(c) ==> {
            &&& c@ == aes_ctr_enc(key@, data@)
            &&& c@ == aes_ctr_dec(key@, data@)
            &&& c@.len() == data@.len()
            &&& aes_ctr_dec(key@, c@) == data@
            &&& forall|i: int|
                0 <= i < data@.len() ==> c@[i] == (data@[i] ^ aes_keystream(key@, i))
        },
{
    openssl::symm::encrypt(openssl::symm::Cipher::aes_256_ctr(), key, Some(&SALT), data).ok()
}

/// Relies on `openssl::symm::decrypt` with `Cipher::aes_256_ctr`: the
/// recovered bytes are the input XORed bytewise with the same keystream
/// the encrypt direction uses, so they are a function of the key and input
/// alone, keep the input's length, and equal what `openssl::symm::encrypt`
/// yields for the same input. As for the encrypt direction, the call
/// succeeds on every input within openssl's C-int length cap.
#[verifier::external_body]
fn aes_ctr_decrypt(key: &Vec<u8>, data: &[u8]) -> (r: Option<Vec<u8>>)
    requires
        key@.len() == 32,
        data@.len() <= 0x7fff_ffff,
    ensures
        r is Some,
        r matches Some(p) ==> {
            &&& p@ == aes_ctr_dec(key@, data@)
            &&& p@ == aes_ctr_enc(key@, data@)
            &&& p@.len() == data@.len()
            &&& forall|i: int|
                0 <= i < data@.len() ==> p@[i] == (data@[i] ^ aes_keystream(key@, i))
        },
{
    openssl::symm::decrypt(openssl::symm::Cipher::aes_256_ctr(), key, Some(&SALT), data).ok()
}

/// Relies on `openssl::rsa::Rsa::public_key_from_pem_pkcs1`,
/// `Rsa::private_key_from_pem_passphrase`, `RsaRef::check_key`,
/// `RsaRef::size`, `RsaRef::n` and `RsaRef::e`: whether the two PEM
/// encodings parse (the private one against a fixed empty passphrase, so
/// no passphrase callback is ever consulted), the private key is
/// internally consistent, and both name the same 2048-bit public
/// component, depends on the key material alone. The public text must be
/// free of the PEM encryption marker, or its parse could fall to openssl's
/// terminal passphrase prompt; both texts must fit openssl's C-int length
/// cap, past which the crate's memory-BIO constructor panics.
#[verifier::external_body]
fn rsa_pair_check(rsa_pub: &str, rsa_priv: &str) -> (r: bool)
    requires
        pem_unencrypted(rsa_pub@),
        fits_openssl_len(rsa_pub@),
        fits_openssl_len(rsa_priv@),
    ensures
        r == rsa_pair_ok(rsa_pub@, rsa_priv@),
        r ==> rsa_priv_ok(rsa_priv@),
{
    let pk = match openssl::rsa::Rsa::public_key_from_pem_pkcs1(rsa_pub.as_bytes()) {
        Ok(k) => k,
        Err(_) => return false,
    };
    let sk = match openssl::rsa::Rsa::private_key_from_pem_passphrase(rsa_priv.as_bytes(), b"") {
        Ok(k) => k,
        Err(_) => return false,
    };
    pk.size() == 256 && sk.size() == 256 && pk.n() == sk.n() && pk.e() == sk.e()
        && sk.check_key().unwrap_or(false)
}

/// Relies on `openssl::rsa::Rsa::private_key_from_pem_passphrase` and
/// `RsaRef::size`: whether the PEM encoding parses against a fixed empty
/// passphrase as a 2048-bit private key depends on the key material alone.
/// The text must fit openssl's C-int length cap, past which the crate's
/// memory-BIO constructor panics.
#[verifier::external_body]
fn rsa_priv_check(rsa_priv: &str) -> (r: bool)
    requires
        fits_openssl_len(rsa_priv@),
    ensures
        r == rsa_priv_ok(rsa_priv@),
{
    match openssl::rsa::Rsa::private_key_from_pem_passphrase(rsa_priv.as_bytes(), b"") {
        Ok(k) => k.size() == 256,
        Err(_) => false,
    }
}

/// Relies on `RsaRef::public_encrypt` with OAEP padding after
/// `Rsa::public_key_from_pem_pkcs1`: a 2048-bit key fills a 256-byte
/// ciphertext block from a chunk of at most 128 bytes, and when the
/// private key completes the pair and passes openssl's consistency check,
/// `RsaRef::private_decrypt` recovers exactly the chunk that went in. The
/// key size is tested first because `public_encrypt` panics on a buffer
/// shorter than the key; the public text must be free of the PEM
/// encryption marker so its parse never consults a passphrase callback,
/// and must fit openssl's C-int length cap, past which the crate's
/// memory-BIO constructor panics.
#[verifier::external_body]
fn rsa_encrypt_block(rsa_pub: &str, rsa_priv: &str, chunk: &[u8]) -> (r: Option<Vec<u8>>)
    requires
        pem_unencrypted(rsa_pub@),
        fits_openssl_len(rsa_pub@),
        1 <= chunk@.len() <= 128,
    ensures
        r matches Some(c) ==> c@.len() == 256 && (rsa_pair_ok(rsa_pub@, rsa_priv@)
            ==> rsa_block_decrypt(rsa_priv@, c@) == Some(chunk@)),
{
    let key = match openssl::rsa::Rsa::public_key_from_pem_pkcs1(rsa_pub.as_bytes()) {
        Ok(k) => k,
        Err(_) => return None,
    };
    if key.size() != 256 {
        return None;
    }
    let mut buf = vec![0u8; 256];
    match key.public_encrypt(chunk, &mut buf, openssl::rsa::Padding::PKCS1_OAEP) {
        Ok(_) => Some(buf),
        Err(_) => None,
    }
}

/// Relies on `RsaRef::private_decrypt` with OAEP padding after
/// `Rsa::private_key_from_pem_passphrase` with a fixed empty passphrase:
/// the recovered bytes, and whether the block is rejected, depend on the
/// key material and the block alone. The recovered length is taken from
/// the call, never from the block size. The key size is tested first
/// because `private_decrypt` panics on a buffer shorter than the key; the
/// key text must fit openssl's C-int length cap, past which the crate's
/// memory-BIO constructor panics.
#[verifier::external_body]
fn rsa_decrypt_block(rsa_priv: &str, block: &[u8]) -> (r: Option<Vec<u8>>)
    requires
        fits_openssl_len(rsa_priv@),
        block@.len() == 256,
    ensures
        r matches Some(p) ==> rsa_block_decrypt(rsa_priv@, block@) == Some(p@),
        r is None ==> rsa_block_decrypt(rsa_priv@, block@) is None,
        !rsa_priv_ok(rsa_priv@) ==> r is None,
{
    let key = match openssl::rsa::Rsa::private_key_from_pem_passphrase(rsa_priv.as_bytes(), b"") {
        Ok(k) => k,
        Err(_) => return None,
    };
    if key.size() != 256 {
        return None;
    }
    let mut buf = vec![0u8; 256];
    match key.private_decrypt(block, &mut buf, openssl::rsa::Padding::PKCS1_OAEP) {
        Ok(n) => {
            buf.truncate(n);
            Some(buf)
        }
        Err(_) => None,
    }
}

/// Joins a recovered prefix to the outcome of decrypting the remaining
/// blocks: the recovery of the whole ciphertext, or `None` if the remainder
/// is rejected.
spec fn prepend_recovered(p: Seq<u8>, r: Option<Seq<u8>>) -> Option<Seq<u8>> {
    match r {
        Some(q) => Some(p + q),
        None => None,
    }
}

/// Appending one more well-formed ciphertext block extends the recovered
/// plaintext by exactly the bytes that block decrypts to.
proof fn lemma_decrypt_all_snoc(
    rsa_priv: Seq<char>,
    c: Seq<u8>,
    p: Seq<u8>,
    block: Seq<u8>,
    q: Seq<u8>,
)
    requires
        c.len() % 256 == 0,
        rsa_decrypt_all(rsa_priv, c) == Some(p),
        block.len() == 256,
        rsa_block_decrypt(rsa_priv, block) == Some(q),
    ensures
        rsa_decrypt_all(rsa_priv, c + block) == Some(p + q),
    decreases c.len(),
{
    if c.len() == 0 {
        assert(c + block =~= block);
        assert(block.subrange(0, 256) =~= block);
        assert(block.subrange(256, block.len() as int) =~= Seq::<u8>::empty());
        assert(rsa_decrypt_all(rsa_priv, Seq::<u8>::empty()) == Some(Seq::<u8>::empty()));
        assert(rsa_decrypt_all(rsa_priv, block) == Some(q + Seq::<u8>::empty()));
        assert(p =~= Seq::<u8>::empty());
        assert(q + Seq::<u8>::empty() =~= p + q);
    } else {
        let c0 = c.subrange(0, 256);
        let crest = c.subrange(256, c.len() as int);
        let p0 = rsa_block_decrypt(rsa_priv, c0).unwrap();
        let prest = rsa_decrypt_all(rsa_priv, crest).unwrap();
        assert(p == p0 + prest);
        lemma_decrypt_all_snoc(rsa_priv, crest, prest, block, q);
        assert((c + block).subrange(0, 256) =~= c0);
        assert((c + block).subrange(256, (c + block).len() as int) =~= crest + block);
        assert(p0 + (prest + q) =~= (p0 + prest) + q);
        assert(rsa_decrypt_all(rsa_priv, c + block) == Some(p0 + (prest + q)));
    }
}

/// The immutable key bundle: a passphrase-like secret for the symmetric
/// transform and the PEM encodings of an asymmetric key pair. Shared
/// read-only by every request and never mutated after construction.
#[derive(Clone, Debug)]
pub struct KeyManager {
    pub aes_key: String,
    pub rsa_pub: String,
    pub rsa_priv: String,
}

impl KeyManager {
    /// Bundles pre-provisioned key material; the keys are treated as opaque
    /// configuration and are not loaded or generated here.
    pub fn new(aes_key: String, rsa_pub: String, rsa_priv: String) -> (r: KeyManager)
        ensures
            r.aes_key == aes_key,
            r.rsa_pub == rsa_pub,
            r.rsa_priv == rsa_priv,
    {
        KeyManager { aes_key, rsa_pub, rsa_priv }
    }

    /// Startup validation of the asymmetric key material: whether the
    /// public text is free of the PEM encryption marker and the two texts
    /// form a usable, consistent 2048-bit pair. Malformed key material is
    /// meant to abort startup, not to surface per request: a caller that
    /// proceeds only when this holds will never see `KeyParseFailure`.
    pub fn keys_ok(&self) -> (r: bool)
        requires
            fits_openssl_len(self.rsa_pub@),
            fits_openssl_len(self.rsa_priv@),
        ensures
            r == (pem_unencrypted(self.rsa_pub@) && rsa_pair_ok(self.rsa_pub@, self.rsa_priv@)),
    {
        pem_is_unencrypted(self.rsa_pub.as_str()) && rsa_pair_check(
            self.rsa_pub.as_str(),
            self.rsa_priv.as_str(),
        )
    }

    /// Symmetric transform: hash the configured secret into the cipher key,
    /// then run the counter-mode stream cipher under the fixed nonce. The
    /// ciphertext is the payload XORed bytewise with the keystream the
    /// secret determines, so it keeps the payload's length, is the same on
    /// every invocation with the same secret and payload, coincides with
    /// the inverse transform of the payload (counter mode is an
    /// involution), and decrypting it with the same secret recovers the
    /// payload. Succeeds on every payload within openssl's C-int length
    /// cap, which the precondition demands.
    pub fn encrypt_aes(&self, data: &[u8]) -> (r: Result<Vec<u8>, StorageError>)
        requires
            data@.len() <= 0x7fff_ffff,
        ensures
            r is Ok,
            r matches Ok(c) ==> {
                &&& c@ == symmetric_cipher(self.aes_key@, data@)
                &&& c@ == symmetric_inverse(self.aes_key@, data@)
                &&& c@.len() == data@.len()
                &&& symmetric_inverse(self.aes_key@, c@) == data@
                &&& forall|i: int|
                    0 <= i < data@.len() ==> c@[i] == (data@[i] ^ symmetric_keystream(
                        self.aes_key@,
                        i,
                    ))
            },
    {
        let key = sha256_key(self.aes_key.as_str());
        match aes_ctr_encrypt(&key, data) {
            Some(c) => Ok(c),
            None => Err(StorageError::CipherRejected),
        }
    }

    /// Inverse symmetric transform: the same keystream XORed once more, so
    /// the result coincides with the forward transform of the same input.
    /// Succeeds on every input within openssl's C-int length cap.
    pub fn decrypt_aes(&self, data: &[u8]) -> (r: Result<Vec<u8>, StorageError>)
        requires
            data@.len() <= 0x7fff_ffff,
        ensures
            r is Ok,
            r matches Ok(p) ==> {
                &&& p@ == symmetric_inverse(self.aes_key@, data@)
                &&& p@ == symmetric_cipher(self.aes_key@, data@)
                &&& p@.len() == data@.len()
                &&& forall|i: int|
                    0 <= i < data@.len() ==> p@[i] == (data@[i] ^ symmetric_keystream(
                        self.aes_key@,
                        i,
                    ))
            },
    {
        let key = sha256_key(self.aes_key.as_str());
        match aes_ctr_decrypt(&key, data) {
            Some(p) => Ok(p),
            None => Err(StorageError::CipherRejected),
        }
    }

    /// Asymmetric transform: split the payload into chunks of 128 bytes
    /// (the final chunk may be shorter), encrypt each independently with
    /// the public key under OAEP padding into a 256-byte block, and
    /// concatenate the blocks in order. On success the ciphertext decrypts
    /// back to exactly the payload, whatever its length; an empty payload
    /// under usable keys always succeeds, as no block is ever encrypted.
    pub fn encrypt_rsa(&self, data: &[u8]) -> (r: Result<Vec<u8>, StorageError>)
        requires
            fits_openssl_len(self.rsa_pub@),
            fits_openssl_len(self.rsa_priv@),
        ensures
            pem_unencrypted(self.rsa_pub@) && rsa_pair_ok(self.rsa_pub@, self.rsa_priv@)
                && data@.len() == 0 ==> r is Ok,
            r matches Ok(c) ==> {
                &&& pem_unencrypted(self.rsa_pub@)
                &&& rsa_pair_ok(self.rsa_pub@, self.rsa_priv@)
                &&& rsa_priv_ok(self.rsa_priv@)
                &&& c@.len() == 256 * rsa_chunk_count(data@.len())
                &&& c@.len() % 256 == 0
                &&& rsa_decrypt_all(self.rsa_priv@, c@) == Some(data@)
            },
            r == Err::<Vec<u8>, StorageError>(StorageError::KeyParseFailure)
                <==> !(pem_unencrypted(self.rsa_pub@) && rsa_pair_ok(
                self.rsa_pub@,
                self.rsa_priv@,
            )),
            r matches Err(e) ==> e == StorageError::KeyParseFailure
                || e == StorageError::CipherRejected,
    {
        if !pem_is_unencrypted(self.rsa_pub.as_str()) {
            return Err(StorageError::KeyParseFailure);
        }
        if !rsa_pair_check(self.rsa_pub.as_str(), self.rsa_priv.as_str()) {
            return Err(StorageError::KeyParseFailure);
        }
        let mut out: Vec<u8> = Vec::new();
        let mut i: usize = 0;
        let mut k: usize = 0;
        while i < data.len()
            invariant
                pem_unencrypted(self.rsa_pub@),
                fits_openssl_len(self.rsa_pub@),
                rsa_pair_ok(self.rsa_pub@, self.rsa_priv@),
                i <= data@.len(),
                i == 128 * k || (i == data@.len() && 128 * (k - 1) < i <= 128 * k),
                i < data@.len() ==> i == 128 * k,
                out@.len() == 256 * k,
                rsa_decrypt_all(self.rsa_priv@, out@) == Some(data@.subrange(0, i as int)),
            decreases data@.len() - i,
        {
            let end = if data.len() - i >= 128 {
                i + 128
            } else {
                data.len()
            };
            let chunk = slice_subrange(data, i, end);
            match rsa_encrypt_block(self.rsa_pub.as_str(), self.rsa_priv.as_str(), chunk) {
                Some(mut block) => {
                    proof {
                        lemma_decrypt_all_snoc(
                            self.rsa_priv@,
                            out@,
                            data@.subrange(0, i as int),
                            block@,
                            chunk@,
                        );
                        assert(data@.subrange(0, i as int) + chunk@
                            =~= data@.subrange(0, end as int));
                    }
                    out.append(&mut block);
                }
                None => {
                    return Err(StorageError::CipherRejected);
                }
            }
            i = end;
            k = k + 1;
        }
        proof {
            assert(data@.subrange(0, data@.len() as int) =~= data@);
            assert(256 * k == 256 * rsa_chunk_count(data@.len())) by (nonlinear_arith)
                requires
                    i == data@.len(),
                    i == 128 * k || (i == data@.len() && 128 * (k - 1) < i <= 128 * k),
                    i < data@.len() ==> i == 128 * k,
                    k == 0 ==> i == 0,
            ;
        }
        Ok(out)
    }

    /// Inverse asymmetric transform: reject a ciphertext that is not a
    /// whole number of 256-byte blocks, decrypt each block with the private
    /// key, and concatenate exactly the bytes each block recovered, in
    /// block order.
    pub fn decrypt_rsa(&self, data: &[u8]) -> (r: Result<Vec<u8>, StorageError>)
        requires
            fits_openssl_len(self.rsa_priv@),
        ensures
            r == Err::<Vec<u8>, StorageError>(StorageError::InvalidCiphertextLength)
                <==> data@.len() % 256 != 0,
            data@.len() % 256 == 0 ==> (r == Err::<Vec<u8>, StorageError>(
                StorageError::KeyParseFailure,
            ) <==> !rsa_priv_ok(self.rsa_priv@)),
            data@.len() % 256 == 0 && rsa_priv_ok(self.rsa_priv@) ==> {
                &&& r is Ok <==> rsa_decrypt_all(self.rsa_priv@, data@) is Some
                &&& (r matches Ok(p) ==> rsa_decrypt_all(self.rsa_priv@, data@) == Some(p@))
                &&& (r is Err ==> r == Err::<Vec<u8>, StorageError>(
                    StorageError::CipherRejected,
                ))
            },
    {
        if data.len() % 256 != 0 {
            return Err(StorageError::InvalidCiphertextLength);
        }
        if !rsa_priv_check(self.rsa_priv.as_str()) {
            return Err(StorageError::KeyParseFailure);
        }
        let mut out: Vec<u8> = Vec::new();
        let mut i: usize = 0;
        proof {
            assert(data@.subrange(0, data@.len() as int) =~= data@);
            if rsa_decrypt_all(self.rsa_priv@, data@) is Some {
                assert(Seq::<u8>::empty() + rsa_decrypt_all(self.rsa_priv@, data@).unwrap()
                    =~= rsa_decrypt_all(self.rsa_priv@, data@).unwrap());
            }
        }
        while i < data.len()
            invariant
                rsa_priv_ok(self.rsa_priv@),
                fits_openssl_len(self.rsa_priv@),
                data@.len() % 256 == 0,
                i <= data@.len(),
                i % 256 == 0,
                rsa_decrypt_all(self.rsa_priv@, data@) == prepend_recovered(
                    out@,
                    rsa_decrypt_all(
                        self.rsa_priv@,
                        data@.subrange(i as int, data@.len() as int),
                    ),
                ),
            decreases data@.len() - i,
        {
            let block = slice_subrange(data, i, i + 256);
            let ghost suffix = data@.subrange(i as int, data@.len() as int);
            proof {
                assert(suffix.subrange(0, 256) =~= block@);
                assert(suffix.subrange(256, suffix.len() as int)
                    =~= data@.subrange(i + 256, data@.len() as int));
            }
            match rsa_decrypt_block(self.rsa_priv.as_str(), block) {
                Some(mut p) => {
                    proof {
                        let rest = rsa_decrypt_all(
                            self.rsa_priv@,
                            data@.subrange(i + 256, data@.len() as int),
                        );
                        if rest is Some {
                            assert(out@ + (p@ + rest.unwrap())
                                =~= (out@ + p@) + rest.unwrap());
                        }
                    }
                    out.append(&mut p);
                }
                None => {
                    proof {
                        assert(rsa_decrypt_all(self.rsa_priv@, suffix) is None);
                        assert(rsa_decrypt_all(self.rsa_priv@, data@) is None);
                    }
                    return Err(StorageError::CipherRejected);
                }
            }
            i = i + 256;
        }
        proof {
            assert(data@.subrange(i as int, data@.len() as int)
                =~= Seq::<u8>::empty());
        }
        Ok(out)
    }
}

} // verus!
