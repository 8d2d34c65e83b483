//! The symmetric stream transform: AES-128 in 8-bit cipher feedback mode, one
//! instance per direction, keyed and initialised with the shared secret.

use vstd::prelude::*;
use aes::Aes128;
use cfb8::Cfb8;
use cfb8::cipher::errors::InvalidLength;
use cfb8::cipher::{AsyncStreamCipher, NewCipher};
use crate::error::TransportError;

verus! {

/// An AES-128 CFB8 instance of cfb8 0.7. Verus cannot take the type itself
/// (its parameter is bound by traits of the cipher crate), so it is held
/// here, out of Verus's sight.
#[verifier::external_body]
pub struct CipherStream {
    inner: Cfb8<Aes128>,
}

#[verifier::external_type_specification]
#[verifier::external_body]
pub struct ExInvalidLength(InvalidLength);

/// The block that AES-128 under `key` makes of the 16-byte block `block`
/// (`BlockEncrypt::encrypt_block` of aes 0.7, which CFB8 applies to its
/// register before every byte).
pub uninterp spec fn aes128_encrypt_block(key: Seq<u8>, block: Seq<u8>) -> Seq<u8>;

/// The key that a CFB8 instance encrypts its feedback register under.
pub uninterp spec fn cfb8_key(s: CipherStream) -> Seq<u8>;

/// The 16-byte feedback register of a CFB8 instance (its `iv` field).
pub uninterp spec fn cfb8_register(s: CipherStream) -> Seq<u8>;

/// The register after byte `i` of the cipher text `c` went through a CFB8
/// instance whose register was `reg`: the last sixteen bytes of `reg` followed
/// by the first `i` bytes of `c`.
pub open spec fn feedback(reg: Seq<u8>, c: Seq<u8>, i: int) -> Seq<u8> {
    (reg + c).subrange(i, i + 16)
}

/// The key stream byte that CFB8 combines with byte `i`.
pub open spec fn pad_byte(key: Seq<u8>, reg: Seq<u8>, c: Seq<u8>, i: int) -> u8 {
    aes128_encrypt_block(key, feedback(reg, c, i))[0]
}

/// `c` is the CFB8 cipher text of `p` under `key`, starting from register `reg`.
pub open spec fn cfb8_ciphertext(key: Seq<u8>, reg: Seq<u8>, p: Seq<u8>, c: Seq<u8>) -> bool {
    &&& c.len() == p.len()
    &&& forall|i: int| 0 <= i < c.len() ==> #[trigger] c[i] == p[i] ^ pad_byte(key, reg, c, i)
}

/// `p` is the CFB8 plain text of `c` under `key`, starting from register `reg`.
pub open spec fn cfb8_plaintext(key: Seq<u8>, reg: Seq<u8>, c: Seq<u8>, p: Seq<u8>) -> bool {
    &&& p.len() == c.len()
    &&& forall|i: int| 0 <= i < p.len() ==> #[trigger] p[i] == c[i] ^ pad_byte(key, reg, c, i)
}

/// Relies on `NewCipher::new_from_slices` of cipher 0.3 for `Cfb8<Aes128>`: it
/// fails exactly when the key or the IV is not 16 bytes long, and otherwise
/// keeps the key and takes the IV as its register.
#[verifier::external_body]
fn cfb8_new(key: &[u8], iv: &[u8]) -> (r: Result<CipherStream, InvalidLength>)
    ensures
        r is Ok <==> (key@.len() == 16 && iv@.len() == 16),
        r matches Ok(s) ==> cfb8_key(s) == key@ && cfb8_register(s) == iv@,
{
    Cfb8::<Aes128>::new_from_slices(key, iv).map(|inner| CipherStream { inner })
}

/// Relies on `AsyncStreamCipher::encrypt` of cfb8 0.7: byte by byte, the
/// first byte of the encrypted register is XORed in, and the cipher text byte
/// is shifted into the register.
#[verifier::external_body]
fn cfb8_encrypt(s: &mut CipherStream, data: &mut [u8])
    requires
        cfb8_register(*old(s)).len() == 16,
    ensures
        cfb8_key(*final(s)) == cfb8_key(*old(s)),
        final(data)@.len() == old(data)@.len(),
        forall|i: int|
            0 <= i < final(data)@.len() ==> #[trigger] final(data)@[i] == old(data)@[i]
                ^ aes128_encrypt_block(
                cfb8_key(*old(s)),
                (cfb8_register(*old(s)) + final(data)@).subrange(i, i + 16),
            )[0],
        cfb8_register(*final(s)) == (cfb8_register(*old(s)) + final(data)@).subrange(
            final(data)@.len() as int,
            final(data)@.len() + 16 as int,
        ),
{
    s.inner.encrypt(data)
}

/// Relies on `AsyncStreamCipher::decrypt` of cfb8 0.7: byte by byte, the
/// first byte of the encrypted register is XORed in, and the cipher text byte
/// that came in is shifted into the register.
#[verifier::external_body]
fn cfb8_decrypt(s: &mut CipherStream, data: &mut [u8])
    requires
        cfb8_register(*old(s)).len() == 16,
    ensures
        cfb8_key(*final(s)) == cfb8_key(*old(s)),
        final(data)@.len() == old(data)@.len(),
        forall|i: int|
            0 <= i < final(data)@.len() ==> #[trigger] final(data)@[i] == old(data)@[i]
                ^ aes128_encrypt_block(
                cfb8_key(*old(s)),
                (cfb8_register(*old(s)) + old(data)@).subrange(i, i + 16),
            )[0],
        cfb8_register(*final(s)) == (cfb8_register(*old(s)) + old(data)@).subrange(
            old(data)@.len() as int,
            old(data)@.len() + 16 as int,
        ),
{
    s.inner.decrypt(data)
}

/// One direction of the stream transform. Every byte of the direction must
/// go through it once, in wire order.
pub struct Codec {
    encryption_stream: CipherStream,
}

impl Codec {
    /// The key, which is the shared secret.
    pub closed spec fn key(&self) -> Seq<u8> {
        cfb8_key(self.encryption_stream)
    }

    /// The feedback register: at first the shared secret, then the last
    /// sixteen cipher text bytes.
    pub closed spec fn register(&self) -> Seq<u8> {
        cfb8_register(self.encryption_stream)
    }

    pub open spec fn wf(&self) -> bool {
        self.register().len() == 16
    }

    /// The read and the write codec for `shared_secret`, which serves as both
    /// key and IV.
    pub fn new(shared_secret_bytes: &[u8]) -> (r: Result<(Codec, Codec), TransportError>)
        ensures
            r is Ok <==> shared_secret_bytes@.len() == 16,
            r is Err ==> r == Err::<(Codec, Codec), _>(TransportError::InvalidSecretLength),
            r matches Ok((read, write)) ==> {
                &&& read.wf() && write.wf()
                &&& read.key() == shared_secret_bytes@ && read.register() == shared_secret_bytes@
                &&& write.key() == shared_secret_bytes@ && write.register() == shared_secret_bytes@
            },
    {
        let stream_read = cfb8_new(shared_secret_bytes, shared_secret_bytes);
        let stream_write = cfb8_new(shared_secret_bytes, shared_secret_bytes);
        match (stream_read, stream_write) {
            (Ok(stream_read), Ok(stream_write)) => Ok(
                (Codec { encryption_stream: stream_read }, Codec { encryption_stream: stream_write }),
            ),
            _ => Err(TransportError::InvalidSecretLength),
        }
    }

    /// The codecs for `shared_secret` once the peer has sent back the verify
    /// token it was given.
    pub fn from_response(response_verify: &[u8], shared_secret: &[u8], verify: &[u8]) -> (r:
        Result<(Codec, Codec), TransportError>)
        ensures
            verify@ != response_verify@ ==> r == Err::<(Codec, Codec), _>(
                TransportError::VerifyTokenMismatch,
            ),
            verify@ == response_verify@ ==> (r is Ok <==> shared_secret@.len() == 16),
            verify@ == response_verify@ && r is Err ==> r == Err::<(Codec, Codec), _>(
                TransportError::InvalidSecretLength,
            ),
            r matches Ok((read, write)) ==> {
                &&& read.wf() && write.wf()
                &&& read.key() == shared_secret@ && read.register() == shared_secret@
                &&& write.key() == shared_secret@ && write.register() == shared_secret@
            },
    {
        if !bytes_equal(verify, response_verify) {
            return Err(TransportError::VerifyTokenMismatch);
        }
        Codec::new(shared_secret)
    }

    /// Encrypts `bytes` in place, continuing the stream.
    pub fn encrypt(&mut self, bytes: &mut [u8])
        requires
            old(self).wf(),
        ensures
            final(self).wf(),
            final(self).key() == old(self).key(),
            cfb8_ciphertext(old(self).key(), old(self).register(), old(bytes)@, final(bytes)@),
            final(self).register() == feedback(
                old(self).register(),
                final(bytes)@,
                final(bytes)@.len() as int,
            ),
    {
        cfb8_encrypt(&mut self.encryption_stream, bytes);
    }

    /// Decrypts `bytes` in place, continuing the stream.
    pub fn decrypt(&mut self, bytes: &mut [u8])
        requires
            old(self).wf(),
        ensures
            final(self).wf(),
            final(self).key() == old(self).key(),
            cfb8_plaintext(old(self).key(), old(self).register(), old(bytes)@, final(bytes)@),
            final(self).register() == feedback(
                old(self).register(),
                old(bytes)@,
                old(bytes)@.len() as int,
            ),
    {
        cfb8_decrypt(&mut self.encryption_stream, bytes);
    }
}

/// Whether `a` and `b` hold the same bytes.
pub fn bytes_equal(a: &[u8], b: &[u8]) -> (r: bool)
    ensures
        r == (a@ == b@),
{
    if a.len() != b.len() {
        return false;
    }
    let mut i: usize = 0;
    while i < a.len()
        invariant
            a@.len() == b@.len(),
            i <= a@.len(),
            forall|j: int| 0 <= j < i ==> a@[j] == b@[j],
        decreases a@.len() - i,
    {
        if a[i] != b[i] {
            return false;
        }
        i = i + 1;
    }
    assert(a@ =~= b@);
    true
}

/// Decrypting what was encrypted, from the same key and register, gives back
/// the plain text, and leaves both directions with the same register.
pub proof fn lemma_decrypt_inverts_encrypt(
    key: Seq<u8>,
    reg: Seq<u8>,
    p: Seq<u8>,
    c: Seq<u8>,
    d: Seq<u8>,
)
    requires
        cfb8_ciphertext(key, reg, p, c),
        cfb8_plaintext(key, reg, c, d),
    ensures
        d == p,
{
    assert forall|i: int| 0 <= i < d.len() implies d[i] == p[i] by {
        let k = pad_byte(key, reg, c, i);
        assert(c[i] == p[i] ^ k);
        assert(d[i] == c[i] ^ k);
        let pi = p[i];
        assert((pi ^ k) ^ k == pi) by (bit_vector);
    }
    assert(d =~= p);
}

} // verus!
