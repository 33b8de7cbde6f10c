//! The secure key custodian: a guarded arena holding one secret, sealed
//! under an in-memory key, with random guard values bracketing the data
//! zone and an integrity check before every access.

use vstd::prelude::*;
use vstd::slice::{slice_subrange, slice_to_vec};

use aes_gcm::aead::{Aead, KeyInit};
use subtle::ConstantTimeEq;
use zeroize::Zeroize;

verus! {

use crate::errors::SecurityError;

/// What AES-256-GCM produces for a key, nonce and plaintext. The algorithm
/// is deterministic in those three inputs; its pages-long definition is not
/// restated here.
pub uninterp spec fn gcm_encrypt_of(key: Seq<u8>, nonce: Seq<u8>, plain: Seq<u8>) -> Seq<u8>;

/// What AES-256-GCM decryption yields for a key, nonce and sealed payload:
/// the plaintext, or nothing when the authentication tag does not match.
pub uninterp spec fn gcm_decrypt_of(key: Seq<u8>, nonce: Seq<u8>, cipher: Seq<u8>) -> Option<
    Seq<u8>,
>;

/// Relies on getrandom::fill: on success the buffer is filled from the
/// operating system's random source. Nothing is assumed about the bytes
/// themselves; callers inspect them.
#[verifier::external_body]
fn fill_random(buf: &mut Vec<u8>) -> (ok: bool)
    ensures
        final(buf)@.len() == old(buf)@.len(),
{
    getrandom::fill(buf.as_mut_slice()).is_ok()
}

/// Relies on subtle's ConstantTimeEq for byte slices: reports whether the
/// two slices hold the same bytes, comparing in constant time (slices of
/// different lengths compare unequal).
#[verifier::external_body]
fn ct_bytes_eq(a: &[u8], b: &[u8]) -> (r: bool)
    ensures
        r == (a@ == b@),
{
    a.ct_eq(b).into()
}

/// Relies on zeroize for byte slices: every byte is overwritten with zero,
/// through writes the compiler may not elide.
#[verifier::external_body]
fn zeroize_bytes(buf: &mut Vec<u8>)
    ensures
        final(buf)@.len() == old(buf)@.len(),
        forall|i: int| 0 <= i < final(buf)@.len() ==> final(buf)@[i] == 0u8,
    opens_invariants none
    no_unwind
{
    buf.as_mut_slice().zeroize();
}

/// Relies on aes_gcm's Aes256Gcm: seals `plain` under `key` and `nonce`.
/// The ciphertext is the plaintext's length plus the 16-byte tag, and the
/// crate refuses only payloads longer than its documented P_MAX; opening
/// the result with the same key and nonce yields the plaintext again.
#[verifier::external_body]
fn aead_encrypt(key: &[u8], nonce: &[u8], plain: &[u8]) -> (r: Option<Vec<u8>>)
    requires
        key@.len() == 32,
        nonce@.len() == 12,
    ensures
        r matches Some(c) ==> {
            &&& c@ == gcm_encrypt_of(key@, nonce@, plain@)
            &&& c@.len() == plain@.len() + 16
            &&& gcm_decrypt_of(key@, nonce@, c@) == Some(plain@)
        },
        plain@.len() <= 0xF_FFFF_FFE0 ==> r is Some,
{
    let cipher = aes_gcm::Aes256Gcm::new_from_slice(key).ok()?;
    let nonce = <&aes_gcm::Nonce<aes_gcm::aead::consts::U12>>::try_from(nonce).ok()?;
    cipher.encrypt(nonce, plain).ok()
}

/// Relies on aes_gcm's Aes256Gcm: opens a sealed payload, failing whenever
/// the authentication tag does not match the key, nonce and bytes given.
#[verifier::external_body]
fn aead_decrypt(key: &[u8], nonce: &[u8], cipher: &[u8]) -> (r: Option<Vec<u8>>)
    requires
        key@.len() == 32,
        nonce@.len() == 12,
    ensures
        r matches Some(p) ==> gcm_decrypt_of(key@, nonce@, cipher@) == Some(p@),
        r is None ==> gcm_decrypt_of(key@, nonce@, cipher@) is None,
{
    let aead = aes_gcm::Aes256Gcm::new_from_slice(key).ok()?;
    let nonce = <&aes_gcm::Nonce<aes_gcm::aead::consts::U12>>::try_from(nonce).ok()?;
    aead.decrypt(nonce, cipher).ok()
}

/// Every byte equals the first one.
pub open spec fn spec_all_same(data: Seq<u8>) -> bool {
    forall|i: int| 0 <= i < data.len() ==> #[trigger] data[i] == data[0]
}

/// Each byte is the previous one plus one, wrapping at 255.
pub open spec fn spec_sequential(data: Seq<u8>) -> bool {
    forall|i: int|
        1 <= i < data.len() ==> #[trigger] data[i] == (((data[i - 1] as int) + 1) % 256) as u8
}

/// A buffer passes the entropy screen when it is too short to judge, or
/// shows neither a constant pattern nor a simple counting pattern.
pub open spec fn spec_entropy_ok(data: Seq<u8>) -> bool {
    data.len() < 4 || (!spec_all_same(data) && !spec_sequential(data))
}

/// Screening of random material and of secrets for obvious patterns.
pub struct EntropyValidator;

impl EntropyValidator {
    /// Rejects all-identical bytes (all zeros included) and simple
    /// ascending patterns; buffers shorter than 4 bytes pass.
    pub fn validate_entropy(data: &[u8]) -> (r: bool)
        ensures
            r == spec_entropy_ok(data@),
    {
        if data.len() < 4 {
            return true;
        }
        let first: u8 = data[0];
        let mut all_same = true;
        let mut i: usize = 0;
        while i < data.len()
            invariant
                0 <= i <= data@.len(),
                first == data@[0],
                all_same == (forall|j: int| 0 <= j < i ==> data@[j] == first),
            decreases data@.len() - i,
        {
            if data[i] != first {
                all_same = false;
            }
            i = i + 1;
        }
        if all_same {
            return false;
        }
        let mut is_sequential = true;
        let mut i: usize = 1;
        while i < data.len()
            invariant
                1 <= i <= data@.len(),
                data@.len() >= 1,
                is_sequential == (forall|j: int|
                    1 <= j < i ==> #[trigger] data@[j] == (((data@[j - 1] as int) + 1)
                        % 256) as u8),
            decreases data@.len() - i,
        {
            let prev: u8 = data[i - 1];
            let expected: u8 = if prev == 255 {
                0
            } else {
                prev + 1
            };
            assert(expected == (((data@[i - 1] as int) + 1) % 256) as u8);
            if data[i] != expected {
                is_sequential = false;
            }
            i = i + 1;
        }
        !is_sequential
    }

    /// Draws `len` random bytes and screens them; a patterned draw is
    /// retried a few times before the whole operation fails.
    pub fn secure_random(len: usize) -> (r: Result<Vec<u8>, SecurityError>)
        ensures
            r matches Ok(v) ==> v@.len() == len && spec_entropy_ok(v@),
            r is Err ==> r == Err::<Vec<u8>, SecurityError>(SecurityError::InsufficientEntropy),
    {
        let mut buf: Vec<u8> = vec![0u8; len];
        let mut attempt: usize = 0;
        while attempt < 4
            invariant
                buf@.len() == len,
            decreases 4 - attempt,
        {
            if fill_random(&mut buf) {
                if Self::validate_entropy(buf.as_slice()) {
                    return Ok(buf);
                }
            }
            attempt = attempt + 1;
        }
        Err(SecurityError::InsufficientEntropy)
    }
}

/// Copies `src` into `dst` at `offset`, leaving every other byte as it was.
fn copy_into(dst: &mut Vec<u8>, offset: usize, src: &[u8])
    requires
        offset + src@.len() <= old(dst)@.len(),
    ensures
        final(dst)@.len() == old(dst)@.len(),
        final(dst)@.subrange(offset as int, offset + src@.len()) == src@,
        forall|i: int|
            0 <= i < old(dst)@.len() && !(offset <= i < offset + src@.len())
                ==> final(dst)@[i] == old(dst)@[i],
{
    let ghost orig = dst@;
    let total: usize = dst.len();
    let mut j: usize = 0;
    while j < src.len()
        invariant
            j <= src@.len(),
            offset + src@.len() <= orig.len(),
            orig.len() == total,
            dst@.len() == orig.len(),
            forall|i: int| 0 <= i < j ==> dst@[offset + i] == src@[i],
            forall|i: int|
                0 <= i < orig.len() && !(offset <= i < offset + j) ==> dst@[i] == orig[i],
        decreases src@.len() - j,
    {
        dst[offset + j] = src[j];
        j = j + 1;
    }
    proof {
        assert(dst@.subrange(offset as int, offset + src@.len()) =~= src@);
    }
}

/// The layout of the protected arena: a 16-byte guard value, the data zone,
/// and a second 16-byte guard value.
pub struct SecureMemoryInner {
    buf: Vec<u8>,
    len: usize,
    capacity: usize,
    locked: bool,
    encrypted: bool,
    key: Option<Vec<u8>>,
    canary_start: Vec<u8>,
    canary_end: Vec<u8>,
    plain: Ghost<Option<Seq<u8>>>,
}

impl SecureMemoryInner {
    /// Size of the data zone.
    pub closed spec fn spec_capacity(self) -> int {
        self.capacity as int
    }

    /// Bytes of the data zone currently in use.
    pub closed spec fn spec_len(self) -> int {
        self.len as int
    }

    /// Whether payloads are sealed before they reach the arena.
    pub closed spec fn spec_encrypted(self) -> bool {
        self.encrypted
    }

    /// Whether the caller asked for the region's pages to be pinned; the
    /// platform binding that honors the request is the embedder's.
    pub closed spec fn spec_locked(self) -> bool {
        self.locked
    }

    /// The guard bytes as the arena currently holds them, both zones joined.
    pub closed spec fn guard_bytes(self) -> Seq<u8> {
        self.buf@.subrange(0, 16) + self.buf@.subrange(
            16 + self.capacity as int,
            32 + self.capacity as int,
        )
    }

    /// The guard values recorded at construction.
    pub closed spec fn recorded_guards(self) -> Seq<u8> {
        self.canary_start@ + self.canary_end@
    }

    /// Both guard zones still hold their recorded values.
    pub closed spec fn canaries_intact(self) -> bool {
        &&& self.buf@.subrange(0, 16) == self.canary_start@
        &&& self.buf@.subrange(16 + self.capacity as int, 32 + self.capacity as int)
            == self.canary_end@
    }

    /// Total size of the arena, guards included.
    pub closed spec fn arena_len(self) -> int {
        self.buf@.len() as int
    }

    /// Every byte of the arena, guards included, is zero.
    pub closed spec fn arena_all_zero(self) -> bool {
        forall|i: int| 0 <= i < self.buf@.len() ==> self.buf@[i] == 0u8
    }

    /// The payload the arena holds, if one was written.
    pub closed spec fn contents(self) -> Option<Seq<u8>> {
        self.plain@
    }

    /// The bytes of the data zone currently in use (sealed form when the
    /// arena encrypts).
    pub closed spec fn stored_bytes(self) -> Seq<u8> {
        self.buf@.subrange(16, 16 + self.len as int)
    }

    /// Structural well-formedness: the arena brackets a data zone of
    /// `capacity` bytes with two 16-byte guards, and whatever payload was
    /// written can be recovered from the data zone.
    pub closed spec fn wf(self) -> bool {
        &&& self.buf@.len() == self.capacity + 32
        &&& self.canary_start@.len() == 16
        &&& self.canary_end@.len() == 16
        &&& self.len <= self.capacity
        &&& (self.encrypted ==> (self.key matches Some(k) && k@.len() == 32))
        &&& match self.plain@ {
            None => self.len == 0,
            Some(p) => {
                if self.encrypted {
                    &&& self.len >= 28
                    &&& p.len() == self.len - 28
                    &&& gcm_decrypt_of(
                        self.key->0@,
                        self.buf@.subrange(16, 28),
                        self.buf@.subrange(28, 16 + self.len as int),
                    ) == Some(p)
                } else {
                    &&& p.len() == self.len
                    &&& self.stored_bytes() == p
                }
            },
        }
    }

    /// Whether a sealing key is present.
    pub closed spec fn spec_has_key(self) -> bool {
        self.key is Some
    }

    /// The sealing key's bytes (empty when the arena does not encrypt).
    pub closed spec fn sealing_key_bytes(self) -> Seq<u8> {
        match self.key {
            Some(k) => k@,
            None => Seq::<u8>::empty(),
        }
    }

    /// The guard zones hold their recorded values exactly when the joined
    /// guard bytes equal the joined recorded values: corruption is a
    /// difference between [`Self::guard_bytes`] and
    /// [`Self::recorded_guards`], and nothing else.
    pub proof fn lemma_canaries_intact_iff_guards_match(self)
        requires
            self.wf(),
        ensures
            self.canaries_intact() <==> self.guard_bytes() == self.recorded_guards(),
    {
        let gb = self.guard_bytes();
        let rg = self.recorded_guards();
        assert(gb.subrange(0, 16) =~= self.buf@.subrange(0, 16));
        assert(gb.subrange(16, 32) =~= self.buf@.subrange(
            16 + self.capacity as int,
            32 + self.capacity as int,
        ));
        assert(rg.subrange(0, 16) =~= self.canary_start@);
        assert(rg.subrange(16, 32) =~= self.canary_end@);
        if self.canaries_intact() {
            assert(gb =~= rg);
        }
        if gb == rg {
            assert(self.buf@.subrange(0, 16) == self.canary_start@);
            assert(self.buf@.subrange(16 + self.capacity as int, 32 + self.capacity as int)
                == self.canary_end@);
        }
    }

    /// The recorded first guard value.
    pub fn canary_start_bytes(&self) -> (r: Vec<u8>)
        requires
            self.wf(),
        ensures
            r@ == self.recorded_guards().subrange(0, 16),
    {
        let out = slice_to_vec(self.canary_start.as_slice());
        proof {
            assert(out@ =~= self.recorded_guards().subrange(0, 16));
        }
        out
    }

    /// The recorded second guard value.
    pub fn canary_end_bytes(&self) -> (r: Vec<u8>)
        requires
            self.wf(),
        ensures
            r@ == self.recorded_guards().subrange(16, 32),
    {
        let out = slice_to_vec(self.canary_end.as_slice());
        proof {
            assert(out@ =~= self.recorded_guards().subrange(16, 32));
        }
        out
    }

    /// Whether a sealing key is present.
    pub fn has_cipher(&self) -> (r: bool)
        ensures
            r == self.spec_has_key(),
    {
        self.key.is_some()
    }

    /// Allocates the arena: the data zone is sized up to a 32-byte multiple,
    /// both guards are drawn from the screened random source, and, when
    /// encryption is requested, so is the in-memory sealing key.
    pub fn new(size: usize, lock: bool, encrypt: bool) -> (r: Result<
        SecureMemoryInner,
        SecurityError,
    >)
        ensures
            (size == 0 || size > (isize::MAX as usize)) <==> r == Err::<
                SecureMemoryInner,
                SecurityError,
            >(SecurityError::InvalidInput),
            r matches Err(e) ==> (e == SecurityError::InvalidInput
                || e == SecurityError::InsufficientEntropy),
            r matches Ok(m) ==> {
                &&& m.wf()
                &&& m.canaries_intact()
                &&& m.contents() is None
                &&& m.spec_encrypted() == encrypt
                &&& m.spec_has_key() == encrypt
                &&& m.spec_locked() == lock
                &&& m.spec_len() == 0
                &&& size <= m.spec_capacity() < size + 32
                &&& m.spec_capacity() % 32 == 0
                &&& spec_entropy_ok(m.recorded_guards().subrange(0, 16))
                &&& spec_entropy_ok(m.recorded_guards().subrange(16, 32))
            },
    {
        if size == 0 || size > (isize::MAX as usize) {
            return Err(SecurityError::InvalidInput);
        }
        let aligned: usize = ((size + 31) / 32) * 32;
        let canary_start = match EntropyValidator::secure_random(16) {
            Ok(v) => v,
            Err(e) => {
                return Err(e);
            },
        };
        let canary_end = match EntropyValidator::secure_random(16) {
            Ok(v) => v,
            Err(e) => {
                return Err(e);
            },
        };
        let key = if encrypt {
            match EntropyValidator::secure_random(32) {
                Ok(v) => Some(v),
                Err(e) => {
                    return Err(e);
                },
            }
        } else {
            None
        };
        let mut buf: Vec<u8> = vec![0u8; aligned + 32];
        copy_into(&mut buf, 0, canary_start.as_slice());
        copy_into(&mut buf, 16 + aligned, canary_end.as_slice());
        let m = SecureMemoryInner {
            buf,
            len: 0,
            capacity: aligned,
            locked: lock,
            encrypted: encrypt,
            key,
            canary_start,
            canary_end,
            plain: Ghost(None),
        };
        proof {
            assert(m.buf@.subrange(0, 16) =~= m.canary_start@);
            assert(m.buf@.subrange(16 + aligned as int, 32 + aligned as int) =~= m.canary_end@);
            assert(m.recorded_guards().subrange(0, 16) =~= m.canary_start@);
            assert(m.recorded_guards().subrange(16, 32) =~= m.canary_end@);
        }
        Ok(m)
    }

    /// Verifies both guard values against their recorded originals, in
    /// constant time; a mismatch is memory corruption and nothing else is
    /// looked at.
    pub fn verify_integrity(&self) -> (r: Result<(), SecurityError>)
        requires
            self.wf(),
        ensures
            r is Ok <==> self.canaries_intact(),
            r is Err ==> r == Err::<(), SecurityError>(SecurityError::MemoryCorruption),
    {
        let n = self.buf.len();
        let start = slice_subrange(self.buf.as_slice(), 0, 16);
        let end = slice_subrange(self.buf.as_slice(), 16 + self.capacity, 32 + self.capacity);
        let start_ok = ct_bytes_eq(start, self.canary_start.as_slice());
        let end_ok = ct_bytes_eq(end, self.canary_end.as_slice());
        if start_ok && end_ok {
            Ok(())
        } else {
            Err(SecurityError::MemoryCorruption)
        }
    }

    /// A payload of this size does not fit the data zone (sealing adds a
    /// 12-byte nonce and a 16-byte tag).
    pub open spec fn spec_too_big(self, payload_len: int) -> bool {
        if self.spec_encrypted() {
            payload_len + 28 > self.spec_capacity()
        } else {
            payload_len > self.spec_capacity()
        }
    }

    /// Places a payload in the data zone, sealing it first when the arena
    /// encrypts, and zeroes whatever space remains. Nothing is touched when
    /// the guards are no longer intact or the payload does not fit.
    pub fn write(&mut self, data: &[u8]) -> (r: Result<(), SecurityError>)
        requires
            old(self).wf(),
        ensures
            final(self).wf(),
            !old(self).canaries_intact() <==> r == Err::<(), SecurityError>(
                SecurityError::MemoryCorruption,
            ),
            (old(self).canaries_intact() && old(self).spec_too_big(data@.len() as int)) <==> r
                == Err::<(), SecurityError>(SecurityError::InvalidInput),
            r matches Err(e) ==> *final(self) == *old(self) && (e
                == SecurityError::MemoryCorruption || e == SecurityError::InvalidInput || e
                == SecurityError::InsufficientEntropy || e == SecurityError::EncryptionFailed),
            data@.len() <= 0xF_FFFF_FFE0 ==> r != Err::<(), SecurityError>(
                SecurityError::EncryptionFailed,
            ),
            (old(self).canaries_intact() && !old(self).spec_encrypted() && !old(self).spec_too_big(
                data@.len() as int,
            )) ==> r is Ok,
            r is Ok ==> {
                &&& final(self).contents() == Some(data@)
                &&& final(self).canaries_intact()
                &&& final(self).spec_capacity() == old(self).spec_capacity()
                &&& final(self).spec_encrypted() == old(self).spec_encrypted()
                &&& final(self).spec_locked() == old(self).spec_locked()
                &&& final(self).recorded_guards() == old(self).recorded_guards()
            },
    {
        match self.verify_integrity() {
            Ok(()) => (),
            Err(e) => {
                return Err(e);
            },
        }
        if self.encrypted {
            if self.capacity < 28 || data.len() > self.capacity - 28 {
                return Err(SecurityError::InvalidInput);
            }
            let nonce = match EntropyValidator::secure_random(12) {
                Ok(v) => v,
                Err(e) => {
                    return Err(e);
                },
            };
            let ct_opt = match &self.key {
                Some(k) => aead_encrypt(k.as_slice(), nonce.as_slice(), data),
                None => {
                    proof {
                        assert(false);
                    }
                    None
                },
            };
            let ct = match ct_opt {
                Some(c) => c,
                None => {
                    proof {
                        assert(data@.len() > 0xF_FFFF_FFE0);
                    }
                    return Err(SecurityError::EncryptionFailed);
                },
            };
            let n: usize = self.buf.len();
            let used: usize = 12 + ct.len();
            proof {
                assert(used + 16 + 16 <= n);
            }
            copy_into(&mut self.buf, 16, nonce.as_slice());
            copy_into(&mut self.buf, 28, ct.as_slice());
            let pad: usize = self.capacity - used;
            let zeros: Vec<u8> = vec![0u8; pad];
            copy_into(&mut self.buf, 16 + used, zeros.as_slice());
            self.len = used;
            self.plain = Ghost(Some(data@));
            proof {
                assert(self.buf@.subrange(16, 28) =~= nonce@);
                assert(self.buf@.subrange(28, 16 + used as int) =~= ct@);
                assert(self.buf@.subrange(0, 16) =~= old(self).buf@.subrange(0, 16));
                assert(self.buf@.subrange(
                    16 + self.capacity as int,
                    32 + self.capacity as int,
                ) =~= old(self).buf@.subrange(
                    16 + self.capacity as int,
                    32 + self.capacity as int,
                ));
            }
            Ok(())
        } else {
            if data.len() > self.capacity {
                return Err(SecurityError::InvalidInput);
            }
            let n: usize = self.buf.len();
            copy_into(&mut self.buf, 16, data);
            let pad: usize = self.capacity - data.len();
            let zeros: Vec<u8> = vec![0u8; pad];
            copy_into(&mut self.buf, 16 + data.len(), zeros.as_slice());
            self.len = data.len();
            self.plain = Ghost(Some(data@));
            proof {
                assert(self.buf@.subrange(16, 16 + data@.len() as int) =~= data@);
                assert(self.buf@.subrange(0, 16) =~= old(self).buf@.subrange(0, 16));
                assert(self.buf@.subrange(
                    16 + self.capacity as int,
                    32 + self.capacity as int,
                ) =~= old(self).buf@.subrange(
                    16 + self.capacity as int,
                    32 + self.capacity as int,
                ));
            }
            Ok(())
        }
    }

    /// Recovers the payload: the guards are verified first, then the data
    /// zone is opened (or copied, for an arena that does not encrypt).
    pub fn read(&self) -> (r: Result<Vec<u8>, SecurityError>)
        requires
            self.wf(),
        ensures
            !self.canaries_intact() <==> r == Err::<Vec<u8>, SecurityError>(
                SecurityError::MemoryCorruption,
            ),
            (self.canaries_intact() && self.spec_encrypted() && self.spec_len() < 12) <==> r
                == Err::<Vec<u8>, SecurityError>(SecurityError::DecryptionFailed),
            r matches Ok(v) ==> {
                &&& self.canaries_intact()
                &&& (self.contents() matches Some(p) ==> v@ == p)
                &&& (self.contents() is None ==> v@ == Seq::<u8>::empty())
            },
            self.canaries_intact() && !(self.spec_encrypted() && self.spec_len() < 12) ==> r
                is Ok,
    {
        match self.verify_integrity() {
            Ok(()) => (),
            Err(e) => {
                return Err(e);
            },
        }
        if self.encrypted {
            if self.len < 12 {
                return Err(SecurityError::DecryptionFailed);
            }
            let n: usize = self.buf.len();
            let nonce = slice_subrange(self.buf.as_slice(), 16, 28);
            let ct = slice_subrange(self.buf.as_slice(), 28, 16 + self.len);
            let opened = match &self.key {
                Some(k) => aead_decrypt(k.as_slice(), nonce, ct),
                None => {
                    proof {
                        assert(false);
                    }
                    None
                },
            };
            match opened {
                Some(p) => Ok(p),
                None => {
                    proof {
                        assert(false);
                    }
                    Err(SecurityError::DecryptionFailed)
                },
            }
        } else {
            let n: usize = self.buf.len();
            let out = slice_to_vec(slice_subrange(self.buf.as_slice(), 16, 16 + self.len));
            Ok(out)
        }
    }

    /// Erases everything: the whole arena (data zone and both guard zones),
    /// the recorded guard values, and the sealing key's bytes.
    pub fn zeroize(&mut self)
        ensures
            final(self).arena_len() == old(self).arena_len(),
            final(self).arena_all_zero(),
            final(self).contents() is None,
            final(self).spec_len() == 0,
            final(self).recorded_guards().len() == old(self).recorded_guards().len(),
            forall|i: int|
                0 <= i < final(self).recorded_guards().len() ==> final(self).recorded_guards()[i]
                    == 0u8,
            final(self).spec_has_key() == old(self).spec_has_key(),
            final(self).sealing_key_bytes().len() == old(self).sealing_key_bytes().len(),
            forall|i: int|
                0 <= i < final(self).sealing_key_bytes().len()
                    ==> final(self).sealing_key_bytes()[i] == 0u8,
        opens_invariants none
        no_unwind
    {
        zeroize_bytes(&mut self.buf);
        self.len = 0;
        match &mut self.key {
            Some(k) => zeroize_bytes(k),
            None => (),
        }
        zeroize_bytes(&mut self.canary_start);
        zeroize_bytes(&mut self.canary_end);
        self.plain = Ghost(None);
        proof {
            assert forall|i: int|
                0 <= i < self.recorded_guards().len() implies self.recorded_guards()[i]
                == 0u8 by {
                if i < self.canary_start@.len() {
                    assert(self.recorded_guards()[i] == self.canary_start@[i]);
                } else {
                    assert(self.recorded_guards()[i] == self.canary_end@[i
                        - self.canary_start@.len()]);
                }
            }
        }
    }

    /// Fault-injection hook for integrity testing: writes one byte into one
    /// of the guard zones, as a buffer overrun immediately adjacent to the
    /// data zone would.
    pub fn overwrite_guard_byte(&mut self, index: usize, value: u8)
        requires
            old(self).wf(),
            index < 16 || 16 + old(self).spec_capacity() <= index < 32 + old(
                self,
            ).spec_capacity(),
        ensures
            final(self).wf(),
            final(self).contents() == old(self).contents(),
            final(self).spec_capacity() == old(self).spec_capacity(),
            final(self).spec_encrypted() == old(self).spec_encrypted(),
            final(self).spec_len() == old(self).spec_len(),
            final(self).recorded_guards() == old(self).recorded_guards(),
            final(self).guard_bytes() == old(self).guard_bytes().update(
                if index < 16 {
                    index as int
                } else {
                    index - old(self).spec_capacity()
                },
                value,
            ),
            (old(self).canaries_intact() && value != old(self).guard_bytes()[if index < 16 {
                index as int
            } else {
                index - old(self).spec_capacity()
            }]) ==> !final(self).canaries_intact(),
            value == old(self).guard_bytes()[if index < 16 {
                index as int
            } else {
                index - old(self).spec_capacity()
            }] ==> final(self).canaries_intact() == old(self).canaries_intact(),
    {
        let n = self.buf.len();
        self.buf[index] = value;
        proof {
            assert(self.buf@.subrange(16, 16 + self.len as int) =~= old(self).buf@.subrange(
                16,
                16 + self.len as int,
            ));
            if self.len >= 28 {
                assert(self.buf@.subrange(16, 28) =~= old(self).buf@.subrange(16, 28));
                assert(self.buf@.subrange(28, 16 + self.len as int) =~= old(self).buf@.subrange(
                    28,
                    16 + self.len as int,
                ));
            }
            assert(self.guard_bytes() =~= old(self).guard_bytes().update(
                if index < 16 {
                    index as int
                } else {
                    index - old(self).spec_capacity()
                },
                value,
            ));
            let gidx = if index < 16 {
                index as int
            } else {
                index - old(self).spec_capacity()
            };
            old(self).lemma_canaries_intact_iff_guards_match();
            self.lemma_canaries_intact_iff_guards_match();
            if old(self).canaries_intact() && value != old(self).guard_bytes()[gidx] {
                assert(self.guard_bytes()[gidx] == value);
                assert(self.recorded_guards()[gidx] == old(self).guard_bytes()[gidx]);
                assert(self.guard_bytes() != self.recorded_guards());
            }
            if value == old(self).guard_bytes()[gidx] {
                assert(self.guard_bytes() =~= old(self).guard_bytes());
            }
        }
    }
}

/// A protected memory region that seals everything written into it. One
/// value owns one physical arena; the embedding application may share it
/// behind its own lock, serializing access per handle.
pub struct SecureMemory {
    inner: SecureMemoryInner,
}

impl SecureMemory {
    /// Well-formed: the arena is intact structurally and always encrypts.
    pub closed spec fn wf(self) -> bool {
        self.inner.wf() && self.inner.spec_encrypted()
    }

    /// The payload currently held, if one was written.
    pub closed spec fn contents(self) -> Option<Seq<u8>> {
        self.inner.contents()
    }

    /// The payload, or the empty byte string when none was written.
    pub open spec fn plaintext_or_empty(self) -> Seq<u8> {
        match self.contents() {
            Some(p) => p,
            None => Seq::<u8>::empty(),
        }
    }

    /// Both guard zones still hold their recorded values.
    pub closed spec fn canaries_intact(self) -> bool {
        self.inner.canaries_intact()
    }

    /// Size of the data zone.
    pub closed spec fn spec_capacity(self) -> int {
        self.inner.spec_capacity()
    }

    /// Bytes of the data zone in use.
    pub closed spec fn spec_len(self) -> int {
        self.inner.spec_len()
    }

    /// The sealed bytes as they sit in the data zone.
    pub closed spec fn sealed_bytes(self) -> Seq<u8> {
        self.inner.stored_bytes()
    }

    /// Allocates a protected region of at least `size` bytes; `lock`
    /// records the request to pin its pages.
    pub fn new(size: usize, lock: bool) -> (r: Result<SecureMemory, SecurityError>)
        ensures
            (size == 0 || size > (isize::MAX as usize)) <==> r == Err::<
                SecureMemory,
                SecurityError,
            >(SecurityError::InvalidInput),
            r matches Err(e) ==> (e == SecurityError::InvalidInput
                || e == SecurityError::InsufficientEntropy),
            r matches Ok(m) ==> {
                &&& m.wf()
                &&& m.canaries_intact()
                &&& m.contents() is None
                &&& size <= m.spec_capacity() < size + 32
            },
    {
        match SecureMemoryInner::new(size, lock, true) {
            Ok(inner) => Ok(SecureMemory { inner }),
            Err(e) => Err(e),
        }
    }

    /// Seals `data` into the region. See [`SecureMemoryInner::write`].
    pub fn write(&mut self, data: &[u8]) -> (r: Result<(), SecurityError>)
        requires
            old(self).wf(),
        ensures
            final(self).wf(),
            !old(self).canaries_intact() <==> r == Err::<(), SecurityError>(
                SecurityError::MemoryCorruption,
            ),
            (old(self).canaries_intact() && data@.len() + 28 > old(self).spec_capacity()) <==> r
                == Err::<(), SecurityError>(SecurityError::InvalidInput),
            r matches Err(e) ==> *final(self) == *old(self) && (e
                == SecurityError::MemoryCorruption || e == SecurityError::InvalidInput || e
                == SecurityError::InsufficientEntropy || e == SecurityError::EncryptionFailed),
            data@.len() <= 0xF_FFFF_FFE0 ==> r != Err::<(), SecurityError>(
                SecurityError::EncryptionFailed,
            ),
            r is Ok ==> {
                &&& final(self).contents() == Some(data@)
                &&& final(self).canaries_intact()
                &&& final(self).spec_capacity() == old(self).spec_capacity()
            },
    {
        self.inner.write(data)
    }

    /// Verifies the guards, then opens and returns the payload.
    pub fn read(&self) -> (r: Result<Vec<u8>, SecurityError>)
        requires
            self.wf(),
        ensures
            !self.canaries_intact() <==> r == Err::<Vec<u8>, SecurityError>(
                SecurityError::MemoryCorruption,
            ),
            (self.canaries_intact() && self.contents() is None) <==> r == Err::<
                Vec<u8>,
                SecurityError,
            >(SecurityError::DecryptionFailed),
            r matches Ok(v) ==> self.contents() == Some(v@),
            self.canaries_intact() && self.contents() is Some ==> r is Ok,
    {
        proof {
            if self.inner.contents() is Some {
                assert(self.inner.spec_len() >= 28);
            }
        }
        self.inner.read()
    }

    /// Verifies the guards, then returns the sealed bytes exactly as the
    /// data zone holds them, without opening them.
    pub fn read_raw(&self) -> (r: Result<Vec<u8>, SecurityError>)
        requires
            self.wf(),
        ensures
            !self.canaries_intact() <==> r == Err::<Vec<u8>, SecurityError>(
                SecurityError::MemoryCorruption,
            ),
            r matches Ok(v) ==> v@ == self.sealed_bytes(),
            self.canaries_intact() ==> r is Ok,
    {
        match self.inner.verify_integrity() {
            Ok(()) => (),
            Err(e) => {
                return Err(e);
            },
        }
        let n: usize = self.inner.buf.len();
        let out = slice_to_vec(
            slice_subrange(self.inner.buf.as_slice(), 16, 16 + self.inner.len),
        );
        Ok(out)
    }

    /// Opens the payload and hands the caller's closure a borrowed view of
    /// it; the transient copy is erased before returning.
    pub fn with_data<F: FnOnce(&[u8]) -> R, R>(&self, operation: F) -> (r: Result<
        R,
        SecurityError,
    >)
        requires
            self.wf(),
            forall|b: &[u8]| b@ == self.plaintext_or_empty() ==> call_requires(operation, (b,)),
        ensures
            !self.canaries_intact() <==> r == Err::<R, SecurityError>(
                SecurityError::MemoryCorruption,
            ),
            (self.canaries_intact() && self.contents() is None) <==> r == Err::<
                R,
                SecurityError,
            >(SecurityError::DecryptionFailed),
            r matches Ok(res) ==> self.contents() is Some && exists|b: &[u8]|
                b@ == self.plaintext_or_empty() && call_ensures(operation, (b,), res),
            self.canaries_intact() && self.contents() is Some ==> r is Ok,
    {
        let mut data = match self.read() {
            Ok(d) => d,
            Err(e) => {
                return Err(e);
            },
        };
        let borrowed = data.as_slice();
        let res = operation(borrowed);
        Ok(res)
    }

    /// The guard bytes as the arena currently holds them, both zones
    /// joined.
    pub closed spec fn guard_bytes(self) -> Seq<u8> {
        self.inner.guard_bytes()
    }

    /// The guard values recorded at construction, both zones joined.
    pub closed spec fn recorded_guards(self) -> Seq<u8> {
        self.inner.recorded_guards()
    }

    /// Corruption is exactly a difference between the guard bytes the
    /// arena holds and the recorded guard values.
    pub proof fn lemma_canaries_intact_iff_guards_match(self)
        requires
            self.wf(),
        ensures
            self.canaries_intact() <==> self.guard_bytes() == self.recorded_guards(),
    {
        self.inner.lemma_canaries_intact_iff_guards_match();
    }

    /// Reads one byte of a guard zone, for integrity testing.
    pub fn guard_byte(&self, index: usize) -> (r: u8)
        requires
            self.wf(),
            index < 16 || 16 + self.spec_capacity() <= index < 32 + self.spec_capacity(),
        ensures
            r == self.guard_bytes()[if index < 16 {
                index as int
            } else {
                index - self.spec_capacity()
            }],
    {
        let n = self.inner.buf.len();
        let b = self.inner.buf[index];
        proof {
            if index < 16 {
                assert(self.guard_bytes()[index as int] == self.inner.buf@[index as int]);
            } else {
                assert(self.guard_bytes()[index - self.spec_capacity()]
                    == self.inner.buf@[index as int]);
            }
        }
        b
    }

    /// Fault-injection hook for integrity testing: writes one byte into one
    /// of the guard zones, as a buffer overrun immediately adjacent to the
    /// data zone would.
    pub fn overwrite_guard_byte(&mut self, index: usize, value: u8)
        requires
            old(self).wf(),
            index < 16 || 16 + old(self).spec_capacity() <= index < 32 + old(
                self,
            ).spec_capacity(),
        ensures
            final(self).wf(),
            final(self).contents() == old(self).contents(),
            final(self).spec_capacity() == old(self).spec_capacity(),
            final(self).recorded_guards() == old(self).recorded_guards(),
            final(self).guard_bytes() == old(self).guard_bytes().update(
                if index < 16 {
                    index as int
                } else {
                    index - old(self).spec_capacity()
                },
                value,
            ),
            (old(self).canaries_intact() && value != old(self).guard_bytes()[if index < 16 {
                index as int
            } else {
                index - old(self).spec_capacity()
            }]) ==> !final(self).canaries_intact(),
            value == old(self).guard_bytes()[if index < 16 {
                index as int
            } else {
                index - old(self).spec_capacity()
            }] ==> final(self).canaries_intact() == old(self).canaries_intact(),
    {
        self.inner.overwrite_guard_byte(index, value);
    }

    /// The data zone's size in bytes.
    pub fn capacity(&self) -> (r: usize)
        ensures
            r == self.spec_capacity(),
    {
        self.inner.capacity
    }
}

/// How many distinct byte values below `bound` occur in `s`.
pub open spec fn spec_count_distinct_below(s: Seq<u8>, bound: int) -> int
    decreases bound,
{
    if bound <= 0 {
        0
    } else {
        spec_count_distinct_below(s, bound - 1) + if s.contains((bound - 1) as u8) {
            1int
        } else {
            0int
        }
    }
}

/// How many distinct byte values occur in `s`.
pub open spec fn spec_distinct_count(s: Seq<u8>) -> int {
    spec_count_distinct_below(s, 256)
}

/// Counts the distinct byte values of a buffer.
fn distinct_byte_count(data: &[u8]) -> (r: usize)
    ensures
        r == spec_distinct_count(data@),
{
    let mut seen: Vec<bool> = vec![false; 256];
    let mut i: usize = 0;
    while i < data.len()
        invariant
            seen@.len() == 256,
            i <= data@.len(),
            forall|b: int|
                0 <= b < 256 ==> (seen@[b] <==> exists|k: int|
                    0 <= k < i && data@[k] == b as u8),
        decreases data@.len() - i,
    {
        let b = data[i];
        seen[b as usize] = true;
        proof {
            assert forall|b2: int| 0 <= b2 < 256 implies (seen@[b2] <==> exists|k: int|
                0 <= k < i + 1 && data@[k] == b2 as u8) by {
                if b2 == b as int {
                    assert(data@[i as int] == b2 as u8);
                }
            }
        }
        i = i + 1;
    }
    proof {
        assert forall|b: int| 0 <= b < 256 implies (seen@[b] <==> data@.contains(b as u8)) by {
            if data@.contains(b as u8) {
                let k = choose|k: int| 0 <= k < data@.len() && data@[k] == b as u8;
                assert(0 <= k < i && data@[k] == b as u8);
            }
            if seen@[b] {
                let k = choose|k: int| 0 <= k < i && data@[k] == b as u8;
                assert(0 <= k < data@.len() && data@[k] == b as u8);
                assert(data@.contains(b as u8));
            }
        }
    }
    let mut count: usize = 0;
    let mut j: usize = 0;
    while j < 256
        invariant
            seen@.len() == 256,
            forall|b: int| 0 <= b < 256 ==> (seen@[b] <==> data@.contains(b as u8)),
            count == spec_count_distinct_below(data@, j as int),
            count <= j <= 256,
        decreases 256 - j,
    {
        if seen[j] {
            count = count + 1;
        }
        j = j + 1;
    }
    count
}

/// A custodied private key: a [`SecureMemory`] region holding exactly one
/// secret for the process's lifetime, with scoped, non-leaking access.
pub struct SecurePrivateKey {
    memory: SecureMemory,
}

impl SecurePrivateKey {
    /// Well-formed: the region is intact structurally and holds a secret.
    pub closed spec fn wf(self) -> bool {
        self.memory.wf() && self.memory.contents() is Some
    }

    /// The custodied secret's bytes.
    pub closed spec fn key_bytes(self) -> Seq<u8> {
        self.memory.contents()->0
    }

    /// Both guard zones still hold their recorded values.
    pub closed spec fn canaries_intact(self) -> bool {
        self.memory.canaries_intact()
    }

    /// Moves a secret into protected memory. Secrets shorter than 32 bytes
    /// or built from fewer than 16 distinct byte values are rejected as
    /// under-entropied; any other secret the cipher can seal (up to its
    /// documented payload limit) is accepted, failing only when the random
    /// source cannot produce screened guard, key or nonce material. The
    /// region is sized for the secret plus the full sealing overhead: the
    /// 12-byte nonce and the 16-byte tag.
    pub fn new(secret: &[u8]) -> (r: Result<SecurePrivateKey, SecurityError>)
        ensures
            secret@.len() < 32 ==> r == Err::<SecurePrivateKey, SecurityError>(
                SecurityError::InsufficientEntropy,
            ),
            secret@.len() >= 32 && spec_distinct_count(secret@) < 16 ==> r == Err::<
                SecurePrivateKey,
                SecurityError,
            >(SecurityError::InsufficientEntropy),
            (secret@.len() >= 32 && spec_distinct_count(secret@) >= 16 && secret@.len()
                <= 0xF_FFFF_FFE0 && secret@.len() + 28 <= isize::MAX as int) ==> (r is Ok || r
                == Err::<SecurePrivateKey, SecurityError>(SecurityError::InsufficientEntropy)),
            r matches Ok(k) ==> {
                &&& k.wf()
                &&& k.canaries_intact()
                &&& k.key_bytes() == secret@
                &&& secret@.len() >= 32
                &&& spec_distinct_count(secret@) >= 16
            },
    {
        if secret.len() < 32 {
            return Err(SecurityError::InsufficientEntropy);
        }
        let unique_bytes = distinct_byte_count(secret);
        if unique_bytes < 16 {
            return Err(SecurityError::InsufficientEntropy);
        }
        let memory_size = match secret.len().checked_add(28) {
            Some(s) => s,
            None => {
                return Err(SecurityError::InvalidInput);
            },
        };
        let mut memory = match SecureMemory::new(memory_size, true) {
            Ok(m) => m,
            Err(e) => {
                return Err(e);
            },
        };
        match memory.write(secret) {
            Ok(()) => Ok(SecurePrivateKey { memory }),
            Err(e) => Err(e),
        }
    }

    /// Runs the caller's closure on a borrowed view of the key bytes. The
    /// bytes never outlive the call and are never returned directly.
    pub fn with_key<F: FnOnce(&[u8]) -> R, R>(&self, operation: F) -> (r: Result<
        R,
        SecurityError,
    >)
        requires
            self.wf(),
            forall|b: &[u8]| b@ == self.key_bytes() ==> call_requires(operation, (b,)),
        ensures
            !self.canaries_intact() <==> r == Err::<R, SecurityError>(
                SecurityError::MemoryCorruption,
            ),
            r matches Ok(res) ==> exists|b: &[u8]|
                b@ == self.key_bytes() && call_ensures(operation, (b,), res),
            self.canaries_intact() ==> r is Ok,
    {
        self.memory.with_data(operation)
    }
}

impl Drop for SecureMemoryInner {
    /// Destruction erases the arena, the guard values and the sealing key
    /// on every exit path.
    fn drop(&mut self)
        opens_invariants none
        no_unwind
    {
        self.zeroize();
    }
}

} // verus!
