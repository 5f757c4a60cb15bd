//! OCB2-AES128, the Mumble UDP voice crypto.
//!
//! The stock FiveM client speaks exactly this mode, so it cannot be replaced
//! by a modern AEAD: OCB2 is academically weakened but mandated by the client.
//!
//! # Wire layout of an encrypted UDP packet
//!
//! ```text
//! byte 0      IV[0]        (low byte of the 128-bit nonce counter)
//! bytes 1..4  tag[0..3]    (first 3 bytes of the OCB2 authentication tag)
//! bytes 4..   ciphertext   (same length as the plaintext)
//! ```
//!
//! # GF(2^128) doubling
//!
//! A block is a big-endian 128-bit number. `times2` is a left shift by one bit
//! with a conditional reduction by the polynomial `0x87`, the doubling that
//! CMAC (RFC 4493) uses.
use aes::cipher::{BlockDecrypt, BlockEncrypt, KeyInit};
use crate::ordered::{lists, IdMap};
use vstd::prelude::*;

verus! {

/// AES-128 encryption of one 16-byte block under a 16-byte key.
pub uninterp spec fn aes128_encrypt(key: Seq<u8>, block: Seq<u8>) -> Seq<u8>;

/// AES-128 decryption of one 16-byte block under a 16-byte key.
pub uninterp spec fn aes128_decrypt(key: Seq<u8>, block: Seq<u8>) -> Seq<u8>;

/// `aes::Aes128` with `encrypt_block`: the encrypted block is a function of the
/// key and the block alone, and decrypting it under the same key gives the
/// block back.
#[verifier::external_body]
fn aes_encrypt_block(key: &[u8; 16], block: &[u8; 16]) -> (out: [u8; 16])
    ensures
        out@ == aes128_encrypt(key@, block@),
        aes128_decrypt(key@, out@) == block@,
{
    let mut b = aes::cipher::generic_array::GenericArray::from(*block);
    aes::Aes128::new(key.into()).encrypt_block(&mut b);
    b.into()
}

/// `aes::Aes128` with `decrypt_block`: the decrypted block is a function of the
/// key and the block alone.
#[verifier::external_body]
fn aes_decrypt_block(key: &[u8; 16], block: &[u8; 16]) -> (out: [u8; 16])
    ensures
        out@ == aes128_decrypt(key@, block@),
{
    let mut b = aes::cipher::generic_array::GenericArray::from(*block);
    aes::Aes128::new(key.into()).decrypt_block(&mut b);
    b.into()
}

/// Bytewise exclusive or of two blocks.
pub open spec fn xor_seq(a: Seq<u8>, b: Seq<u8>) -> Seq<u8> {
    Seq::new(a.len(), |i: int| a[i] ^ b[i])
}

/// Doubling in GF(2^128), most significant byte first.
pub open spec fn doubled(b: Seq<u8>) -> Seq<u8> {
    Seq::new(
        16,
        |i: int|
            if i < 15 {
                (b[i] << 1) | (b[i + 1] >> 7)
            } else if b[0] >> 7 == 1 {
                (b[15] << 1) ^ 0x87
            } else {
                b[15] << 1
            },
    )
}

/// Tripling in GF(2^128): the block plus its double.
pub open spec fn tripled(b: Seq<u8>) -> Seq<u8> {
    xor_seq(b, doubled(b))
}

/// The block of sixteen zero bytes.
pub open spec fn zero_block() -> Seq<u8> {
    Seq::new(16, |i: int| 0u8)
}

/// The block that encodes the bit length of the last chunk, of at most 16 bytes.
pub open spec fn length_block(len: nat) -> Seq<u8> {
    zero_block().update(15, (len * 8) as u8)
}

/// The OCB2 pass over what is left of a plaintext: ciphertext and tag.
pub open spec fn ocb_seal(
    key: Seq<u8>,
    delta: Seq<u8>,
    checksum: Seq<u8>,
    plain: Seq<u8>,
) -> (Seq<u8>, Seq<u8>)
    decreases plain.len(),
{
    let d = doubled(delta);
    if plain.len() > 16 {
        let chunk = plain.take(16);
        let block = xor_seq(d, aes128_encrypt(key, xor_seq(d, chunk)));
        let rest = ocb_seal(key, d, xor_seq(checksum, chunk), plain.skip(16));
        (block + rest.0, rest.1)
    } else {
        let pad = aes128_encrypt(key, xor_seq(length_block(plain.len()), d));
        let last = plain + pad.skip(plain.len() as int);
        (
            xor_seq(pad, last).take(plain.len() as int),
            aes128_encrypt(key, xor_seq(tripled(d), xor_seq(checksum, last))),
        )
    }
}

/// The OCB2 pass over what is left of a ciphertext: plaintext and tag.
pub open spec fn ocb_open(
    key: Seq<u8>,
    delta: Seq<u8>,
    checksum: Seq<u8>,
    cipher: Seq<u8>,
) -> (Seq<u8>, Seq<u8>)
    decreases cipher.len(),
{
    let d = doubled(delta);
    if cipher.len() > 16 {
        let chunk = cipher.take(16);
        let block = xor_seq(d, aes128_decrypt(key, xor_seq(d, chunk)));
        let rest = ocb_open(key, d, xor_seq(checksum, block), cipher.skip(16));
        (block + rest.0, rest.1)
    } else {
        let pad = aes128_encrypt(key, xor_seq(length_block(cipher.len()), d));
        let plain = xor_seq(pad, cipher + pad.skip(cipher.len() as int)).take(cipher.len() as int);
        let last = plain + pad.skip(cipher.len() as int);
        (plain, aes128_encrypt(key, xor_seq(tripled(d), xor_seq(checksum, last))))
    }
}

/// OCB2 encryption of `plain` under `nonce`: ciphertext and tag.
pub open spec fn ocb_encrypted(key: Seq<u8>, nonce: Seq<u8>, plain: Seq<u8>) -> (Seq<u8>, Seq<u8>) {
    ocb_seal(key, aes128_encrypt(key, nonce), zero_block(), plain)
}

/// OCB2 decryption of `cipher` under `nonce`: plaintext and tag.
pub open spec fn ocb_decrypted(key: Seq<u8>, nonce: Seq<u8>, cipher: Seq<u8>) -> (
    Seq<u8>,
    Seq<u8>,
) {
    ocb_open(key, aes128_encrypt(key, nonce), zero_block(), cipher)
}

/// Every full block of the pass can be decrypted again.
spec fn ocb_invertible(key: Seq<u8>, delta: Seq<u8>, plain: Seq<u8>) -> bool
    decreases plain.len(),
{
    let d = doubled(delta);
    plain.len() > 16 ==> {
        let masked = xor_seq(d, plain.take(16));
        &&& aes128_encrypt(key, masked).len() == 16
        &&& aes128_decrypt(key, aes128_encrypt(key, masked)) == masked
        &&& ocb_invertible(key, d, plain.skip(16))
    }
}

proof fn lemma_xor_cancel(a: u8, b: u8)
    by (bit_vector)
    ensures
        a ^ (a ^ b) == b,
{
}

proof fn lemma_xor_seq_cancel(a: Seq<u8>, b: Seq<u8>)
    requires
        a.len() == b.len(),
    ensures
        xor_seq(a, xor_seq(a, b)) == b,
{
    assert forall|i: int| 0 <= i < a.len() implies xor_seq(a, xor_seq(a, b))[i] == b[i] by {
        lemma_xor_cancel(a[i], b[i]);
    }
    assert(xor_seq(a, xor_seq(a, b)) =~= b);
}

/// Decrypting a sealed text gives the text and its tag back, as long as every
/// block of the pass decrypts to what was encrypted.
proof fn lemma_open_seal(
    key: Seq<u8>,
    delta: Seq<u8>,
    checksum: Seq<u8>,
    plain: Seq<u8>,
    last_delta: Seq<u8>,
)
    requires
        ocb_invertible(key, delta, plain),
        last_delta == ocb_last_delta(delta, plain),
        aes128_encrypt(
            key,
            xor_seq(length_block(ocb_last_len(plain.len())), doubled(last_delta)),
        ).len() == 16,
    ensures
        ocb_seal(key, delta, checksum, plain).0.len() == plain.len(),
        ocb_open(key, delta, checksum, ocb_seal(key, delta, checksum, plain).0) == (
            plain,
            ocb_seal(key, delta, checksum, plain).1,
        ),
    decreases plain.len(),
{
    let d = doubled(delta);
    let sealed = ocb_seal(key, delta, checksum, plain);
    if plain.len() > 16 {
        let chunk = plain.take(16);
        let masked = xor_seq(d, chunk);
        let enc = aes128_encrypt(key, masked);
        let block = xor_seq(d, enc);
        let rest_plain = plain.skip(16);
        lemma_open_seal(key, d, xor_seq(checksum, chunk), rest_plain, last_delta);
        let rest = ocb_seal(key, d, xor_seq(checksum, chunk), rest_plain);
        assert(sealed.0 == block + rest.0);
        assert(block.len() == 16);
        assert(sealed.0.take(16) =~= block);
        assert(sealed.0.skip(16) =~= rest.0);
        lemma_xor_seq_cancel(d, enc);
        lemma_xor_seq_cancel(d, chunk);
        assert(chunk + rest_plain =~= plain);
    } else {
        let n = plain.len() as int;
        let pad = aes128_encrypt(key, xor_seq(length_block(plain.len()), d));
        let last = plain + pad.skip(n);
        let cipher = xor_seq(pad, last).take(n);
        assert(cipher.len() == n);
        let mixed = cipher + pad.skip(n);
        assert forall|i: int| 0 <= i < n implies xor_seq(pad, mixed).take(n)[i] == plain[i] by {
            lemma_xor_cancel(pad[i], last[i]);
        }
        assert(xor_seq(pad, mixed).take(n) =~= plain);
    }
}

/// The running mask when the pass reaches its last chunk.
spec fn ocb_last_delta(delta: Seq<u8>, plain: Seq<u8>) -> Seq<u8>
    decreases plain.len(),
{
    if plain.len() > 16 {
        ocb_last_delta(doubled(delta), plain.skip(16))
    } else {
        delta
    }
}

/// How many bytes the last chunk of a text of `len` bytes has.
spec fn ocb_last_len(len: nat) -> nat
    decreases len,
{
    if len > 16 {
        ocb_last_len((len - 16) as nat)
    } else {
        len
    }
}

/// Big-endian GF(2^128) doubling (`times2`, OCB2 `S2`).
pub fn times2(block: &[u8; 16]) -> (out: [u8; 16])
    ensures
        out@ == doubled(block@),
{
    let carry: u8 = block[0] >> 7;
    let mut out = [0u8; 16];
    let mut i: usize = 0;
    while i < 15
        invariant
            i <= 15,
            forall|j: int| 0 <= j < i ==> out@[j] == (block@[j] << 1) | (block@[j + 1] >> 7),
        decreases 15 - i,
    {
        out[i] = (block[i] << 1) | (block[i + 1] >> 7);
        i = i + 1;
    }
    if carry == 1 {
        out[15] = (block[15] << 1) ^ 0x87;
    } else {
        out[15] = block[15] << 1;
    }
    assert(out@ =~= doubled(block@));
    out
}

/// `times3` (OCB2 `S3`): the block exclusive-or'ed with its double.
fn times3(block: &[u8; 16]) -> (out: [u8; 16])
    ensures
        out@ == tripled(block@),
{
    let two = times2(block);
    xor(block, &two)
}

fn xor_into(dst: &mut [u8; 16], src: &[u8; 16])
    ensures
        final(dst)@ == xor_seq(old(dst)@, src@),
{
    let mut i: usize = 0;
    while i < 16
        invariant
            i <= 16,
            forall|j: int| 0 <= j < i ==> dst@[j] == old(dst)@[j] ^ src@[j],
            forall|j: int| i <= j < 16 ==> dst@[j] == old(dst)@[j],
        decreases 16 - i,
    {
        dst[i] = dst[i] ^ src[i];
        i = i + 1;
    }
    assert(dst@ =~= xor_seq(old(dst)@, src@));
}

fn xor(a: &[u8; 16], b: &[u8; 16]) -> (out: [u8; 16])
    ensures
        out@ == xor_seq(a@, b@),
{
    let mut out = *a;
    xor_into(&mut out, b);
    out
}

/// The sixteen bytes of `text` that start at `off`.
fn chunk_at(text: &[u8], off: usize) -> (chunk: [u8; 16])
    requires
        off + 16 <= text@.len(),
    ensures
        chunk@ == text@.subrange(off as int, off + 16),
{
    let mut chunk = [0u8; 16];
    let mut i: usize = 0;
    assert(text.len() == text@.len());
    while i < 16
        invariant
            i <= 16,
            off + 16 <= text@.len() <= usize::MAX,
            forall|j: int| 0 <= j < i ==> chunk@[j] == text@[off + j],
        decreases 16 - i,
    {
        chunk[i] = text[off + i];
        i = i + 1;
    }
    assert(chunk@ =~= text@.subrange(off as int, off + 16));
    chunk
}

/// Append the first `len` bytes of `block`.
fn push_block(out: &mut Vec<u8>, block: &[u8; 16], len: usize)
    requires
        len <= 16,
    ensures
        final(out)@ == old(out)@ + block@.take(len as int),
{
    let mut i: usize = 0;
    while i < len
        invariant
            i <= len <= 16,
            out@ == old(out)@ + block@.take(i as int),
        decreases len - i,
    {
        out.push(block[i]);
        i = i + 1;
        assert(out@ =~= old(out)@ + block@.take(i as int));
    }
    assert(out@ =~= old(out)@ + block@.take(len as int));
}

/// The mask of the last chunk: the encrypted length block.
fn last_pad(key: &[u8; 16], delta: &[u8; 16], len: usize) -> (pad: [u8; 16])
    requires
        len <= 16,
    ensures
        pad@ == aes128_encrypt(key@, xor_seq(length_block(len as nat), delta@)),
{
    let mut tmp = [0u8; 16];
    tmp[15] = (len * 8) as u8;
    assert(tmp@ =~= length_block(len as nat));
    xor_into(&mut tmp, delta);
    aes_encrypt_block(key, &tmp)
}

/// AES-128 in OCB2 mode under one key.
pub struct Ocb2 {
    key: [u8; 16],
}

impl Ocb2 {
    /// The key that the mode works under.
    pub closed spec fn key(self) -> Seq<u8> {
        self.key@
    }

    /// Build from the 16-byte shared key delivered in `CryptSetup.key`.
    pub fn new(key: &[u8; 16]) -> (ocb: Self)
        ensures
            ocb.key() == key@,
    {
        Self { key: *key }
    }

    /// One AES-128 block encryption under the key.
    pub fn aes_encrypt(&self, input: &[u8; 16]) -> (out: [u8; 16])
        ensures
            out@ == aes128_encrypt(self.key(), input@),
    {
        aes_encrypt_block(&self.key, input)
    }

    /// OCB2 encrypt `plain` under `nonce`. Writes ciphertext to `encrypted`
    /// (same length as `plain`) and returns the 16-byte tag. Decrypting the
    /// ciphertext under the same key and nonce gives `plain` and the tag back.
    pub fn ocb_encrypt(
        &self,
        plain: &[u8],
        encrypted: &mut Vec<u8>,
        nonce: &[u8; 16],
    ) -> (tag: [u8; 16])
        ensures
            (final(encrypted)@, tag@) == ocb_encrypted(self.key(), nonce@, plain@),
            final(encrypted)@.len() == plain@.len(),
            ocb_decrypted(self.key(), nonce@, final(encrypted)@) == (plain@, tag@),
    {
        encrypted.clear();
        let mut delta = aes_encrypt_block(&self.key, nonce);
        let mut checksum = [0u8; 16];
        let mut off: usize = 0;
        let ghost key = self.key@;
        let ghost delta0 = delta@;
        let ghost want = ocb_seal(key, delta0, zero_block(), plain@);
        assert(checksum@ =~= zero_block());
        assert(plain@.skip(0) =~= plain@);
        while plain.len() - off > 16
            invariant
                off <= plain@.len(),
                key == self.key@,
                plain@.len() > 0 ==> off < plain@.len(),
                want == ocb_seal(key, delta0, zero_block(), plain@),
                encrypted@.len() == off,
                want == (
                    encrypted@ + ocb_seal(key, delta@, checksum@, plain@.skip(off as int)).0,
                    ocb_seal(key, delta@, checksum@, plain@.skip(off as int)).1,
                ),
                ocb_invertible(key, delta@, plain@.skip(off as int)) ==> ocb_invertible(
                    key,
                    delta0,
                    plain@,
                ),
                ocb_last_delta(delta@, plain@.skip(off as int)) == ocb_last_delta(delta0, plain@),
                ocb_last_len((plain@.len() - off) as nat) == ocb_last_len(plain@.len()),
            decreases plain@.len() - off,
        {
            let ghost rest = plain@.skip(off as int);
            delta = times2(&delta);
            let chunk = chunk_at(plain, off);
            assert(chunk@ =~= rest.take(16));
            assert(rest.skip(16) =~= plain@.skip(off + 16));
            let tmp = aes_encrypt_block(&self.key, &xor(&delta, &chunk));
            let block = xor(&delta, &tmp);
            let ghost before = encrypted@;
            push_block(encrypted, &block, 16);
            assert(encrypted@ =~= before + block@);
            xor_into(&mut checksum, &chunk);
            off = off + 16;
            proof {
                let sealed = ocb_seal(key, delta@, checksum@, plain@.skip(off as int));
                assert(before + (block@ + sealed.0) =~= encrypted@ + sealed.0);
            }
        }
        // Final (possibly partial) block.
        let len: usize = plain.len() - off;
        let ghost rest = plain@.skip(off as int);
        let ghost before = encrypted@;
        let ghost delta_last = delta@;
        delta = times2(&delta);
        let pad = last_pad(&self.key, &delta, len);
        // last = plain[off..] followed by the tail of the pad
        let mut last = pad;
        let mut i: usize = 0;
        while i < len
            invariant
                i <= len <= 16,
                off + len == plain@.len() <= usize::MAX,
                forall|j: int| 0 <= j < i ==> last@[j] == plain@[off + j],
                forall|j: int| i <= j < 16 ==> last@[j] == pad@[j],
            decreases len - i,
        {
            last[i] = plain[off + i];
            i = i + 1;
        }
        assert(last@ =~= rest + pad@.skip(len as int));
        xor_into(&mut checksum, &last);
        let cipher_last = xor(&pad, &last);
        push_block(encrypted, &cipher_last, len);
        delta = times3(&delta);
        let tag = aes_encrypt_block(&self.key, &xor(&delta, &checksum));
        proof {
            assert(want.0 =~= encrypted@);
            assert(ocb_invertible(key, delta_last, rest));
            lemma_open_seal(key, delta0, zero_block(), plain@, delta_last);
        }
        tag
    }

    /// OCB2 decrypt `encrypted` under `nonce`. Writes plaintext to `plain`
    /// (same length) and returns the 16-byte tag for the caller to verify.
    pub fn ocb_decrypt(
        &self,
        encrypted: &[u8],
        plain: &mut Vec<u8>,
        nonce: &[u8; 16],
    ) -> (tag: [u8; 16])
        ensures
            (final(plain)@, tag@) == ocb_decrypted(self.key(), nonce@, encrypted@),
            final(plain)@.len() == encrypted@.len(),
    {
        plain.clear();
        let mut delta = aes_encrypt_block(&self.key, nonce);
        let mut checksum = [0u8; 16];
        let mut off: usize = 0;
        let ghost key = self.key@;
        let ghost delta0 = delta@;
        let ghost want = ocb_open(key, delta0, zero_block(), encrypted@);
        assert(checksum@ =~= zero_block());
        assert(encrypted@.skip(0) =~= encrypted@);
        while encrypted.len() - off > 16
            invariant
                off <= encrypted@.len(),
                key == self.key@,
                plain@.len() == off,
                want == (
                    plain@ + ocb_open(key, delta@, checksum@, encrypted@.skip(off as int)).0,
                    ocb_open(key, delta@, checksum@, encrypted@.skip(off as int)).1,
                ),
            decreases encrypted@.len() - off,
        {
            let ghost rest = encrypted@.skip(off as int);
            delta = times2(&delta);
            let chunk = chunk_at(encrypted, off);
            assert(chunk@ =~= rest.take(16));
            assert(rest.skip(16) =~= encrypted@.skip(off + 16));
            let tmp = aes_decrypt_block(&self.key, &xor(&delta, &chunk));
            let block = xor(&delta, &tmp);
            let ghost before = plain@;
            push_block(plain, &block, 16);
            assert(plain@ =~= before + block@);
            xor_into(&mut checksum, &block);
            off = off + 16;
            proof {
                let opened = ocb_open(key, delta@, checksum@, encrypted@.skip(off as int));
                assert(before + (block@ + opened.0) =~= plain@ + opened.0);
            }
        }
        let len: usize = encrypted.len() - off;
        let ghost rest = encrypted@.skip(off as int);
        delta = times2(&delta);
        let pad = last_pad(&self.key, &delta, len);
        // last = the pad with its head exclusive-or'ed by what is left
        let mut last = pad;
        let mut i: usize = 0;
        while i < len
            invariant
                i <= len <= 16,
                off + len == encrypted@.len() <= usize::MAX,
                forall|j: int| 0 <= j < i ==> last@[j] == pad@[j] ^ encrypted@[off + j],
                forall|j: int| i <= j < 16 ==> last@[j] == pad@[j],
            decreases len - i,
        {
            last[i] = last[i] ^ encrypted[off + i];
            i = i + 1;
        }
        proof {
            let n = len as int;
            let head = xor_seq(pad@, rest + pad@.skip(n)).take(n);
            assert(last@.take(n) =~= head);
            assert(last@ =~= head + pad@.skip(n));
        }
        xor_into(&mut checksum, &last);
        push_block(plain, &last, len);
        delta = times3(&delta);
        assert(want.0 =~= plain@);
        aes_encrypt_block(&self.key, &xor(&delta, &checksum))
    }
}

/// A little-endian counter plus one, wrapping at the end.
pub open spec fn le_inc(s: Seq<u8>) -> Seq<u8>
    decreases s.len(),
{
    if s.len() == 0 {
        s
    } else if s[0] == 255 {
        seq![0u8] + le_inc(s.skip(1))
    } else {
        s.update(0, (s[0] + 1) as u8)
    }
}

/// A little-endian counter minus one, wrapping at the end.
pub open spec fn le_dec(s: Seq<u8>) -> Seq<u8>
    decreases s.len(),
{
    if s.len() == 0 {
        s
    } else if s[0] == 0 {
        seq![255u8] + le_dec(s.skip(1))
    } else {
        s.update(0, (s[0] - 1) as u8)
    }
}

/// Counting up and then down again leaves the counter where it was.
pub proof fn le_dec_undoes_le_inc(s: Seq<u8>)
    ensures
        le_dec(le_inc(s)) == s,
        le_inc(s).len() == s.len(),
    decreases s.len(),
{
    if s.len() > 0 {
        le_dec_undoes_le_inc(s.skip(1));
        let up = le_inc(s);
        if s[0] == 255 {
            assert(up.skip(1) =~= le_inc(s.skip(1)));
        }
        assert(le_dec(up) =~= s);
    }
}

/// How far the counter byte `byte` lies ahead of the counter byte `at`, taken
/// round the 256-cycle: from -128 to 128.
pub open spec fn iv_distance(at: u8, byte: u8) -> int {
    let diff = byte - at;
    if diff > 128 {
        diff - 256
    } else if diff < -128 {
        diff + 256
    } else {
        diff
    }
}

/// The nonce counter `iv` moved to the nearest counter with low byte `byte`, for a
/// distance of 128 at most.
pub open spec fn iv_moved(iv: Seq<u8>, byte: u8) -> Seq<u8> {
    let diff = iv_distance(iv[0], byte);
    if diff > 0 && byte < iv[0] {
        seq![byte] + le_inc(iv.skip(1))
    } else if diff < 0 && byte > iv[0] {
        seq![byte] + le_dec(iv.skip(1))
    } else {
        iv.update(0, byte)
    }
}

/// The next packet in order carries the successor of the counter.
pub open spec fn iv_in_order(iv: Seq<u8>, byte: u8) -> bool {
    iv_distance(iv[0], byte) == 1
}

/// Packets up to 128 ahead are taken, and late ones up to 29 behind.
pub open spec fn iv_in_window(iv: Seq<u8>, byte: u8) -> bool {
    let diff = iv_distance(iv[0], byte);
    -30 < diff && diff != 0
}

/// What a [`CryptState`] holds.
pub struct CryptModel {
    pub key: Seq<u8>,
    pub encrypt_iv: Seq<u8>,
    pub decrypt_iv: Seq<u8>,
    /// The second counter byte of the last packet taken, by its first; nothing where
    /// none was.
    pub history: Seq<Option<u8>>,
    pub good: u32,
    pub late: u32,
    pub lost: u32,
}

/// A state that has seen no packet.
pub open spec fn fresh_crypt(key: Seq<u8>, encrypt_iv: Seq<u8>, decrypt_iv: Seq<u8>) -> CryptModel {
    CryptModel {
        key,
        encrypt_iv,
        decrypt_iv,
        history: Seq::new(256, |i: int| None::<u8>),
        good: 0,
        late: 0,
        lost: 0,
    }
}

/// Whether the packet is taken: long enough, within the window, not seen before
/// when it comes out of order, and with a matching tag.
pub open spec fn packet_taken(st: CryptModel, packet: Seq<u8>) -> bool {
    &&& packet.len() >= 4
    &&& iv_in_window(st.decrypt_iv, packet[0])
    &&& iv_in_order(st.decrypt_iv, packet[0]) || st.history[packet[0] as int] != Some(
        iv_moved(st.decrypt_iv, packet[0])[1],
    )
    &&& ocb_decrypted(st.key, iv_moved(st.decrypt_iv, packet[0]), packet.skip(4)).1.take(3)
        == packet.subrange(1, 4)
}

/// The sum of two counters, wrapping at 32 bits.
pub open spec fn wrapping_sum(a: u32, b: int) -> u32 {
    ((a + b) % 0x1_0000_0000) as u32
}

/// The state after a packet was taken: the counter has moved on (a late packet
/// leaves it), the history knows the packet, and the statistics have counted it.
pub open spec fn state_after(st: CryptModel, packet: Seq<u8>) -> CryptModel {
    let iv = iv_moved(st.decrypt_iv, packet[0]);
    let diff = iv_distance(st.decrypt_iv[0], packet[0]);
    CryptModel {
        decrypt_iv: if diff < 0 {
            st.decrypt_iv
        } else {
            iv
        },
        history: st.history.update(packet[0] as int, Some(iv[1])),
        good: wrapping_sum(st.good, 1),
        late: if diff < 0 {
            wrapping_sum(st.late, 1)
        } else {
            st.late
        },
        lost: if diff > 1 {
            wrapping_sum(st.lost, diff - 1)
        } else {
            st.lost
        },
        ..st
    }
}

/// What decrypting `packet` does: the next state and the plaintext, if any.
pub open spec fn decrypt_step(st: CryptModel, packet: Seq<u8>) -> (CryptModel, Option<Seq<u8>>) {
    if packet_taken(st, packet) {
        let iv = iv_moved(st.decrypt_iv, packet[0]);
        (state_after(st, packet), Some(ocb_decrypted(st.key, iv, packet.skip(4)).0))
    } else {
        (st, None)
    }
}

/// The wire form of `plain` under the nonce `iv`.
pub open spec fn seal(key: Seq<u8>, iv: Seq<u8>, plain: Seq<u8>) -> Seq<u8> {
    let cipher = ocb_encrypted(key, iv, plain);
    seq![iv[0]] + cipher.1.take(3) + cipher.0
}

/// `packet` is the sealed form of `plain` under the nonce `iv`, and opens again.
pub open spec fn sealed_packet(key: Seq<u8>, iv: Seq<u8>, plain: Seq<u8>, packet: Seq<u8>) -> bool {
    let cipher = ocb_encrypted(key, iv, plain);
    &&& packet == seal(key, iv, plain)
    &&& packet.len() == plain.len() + 4
    &&& cipher.1.len() == 16
    &&& ocb_decrypted(key, iv, cipher.0) == (plain, cipher.1)
}

/// A packet sealed with the successor of the receiver's counter, under the same
/// key, is taken and opens to the plaintext that was sealed.
pub proof fn sealed_packet_opens_in_order(st: CryptModel, plain: Seq<u8>, packet: Seq<u8>)
    requires
        st.decrypt_iv.len() == 16,
        sealed_packet(st.key, le_inc(st.decrypt_iv), plain, packet),
    ensures
        decrypt_step(st, packet) == (state_after(st, packet), Some(plain)),
        state_after(st, packet).decrypt_iv == le_inc(st.decrypt_iv),
{
    let iv = st.decrypt_iv;
    let next = le_inc(iv);
    le_dec_undoes_le_inc(iv.skip(1));
    assert(next[0] == if iv[0] == 255 {
        0
    } else {
        iv[0] + 1
    });
    assert(iv_moved(iv, next[0]) =~= next);
    let cipher = ocb_encrypted(st.key, next, plain);
    assert(packet.skip(4) =~= cipher.0);
    assert(packet.subrange(1, 4) =~= cipher.1.take(3));
}

/// A little-endian counter plus `k`, wrapping at the end.
pub open spec fn le_plus(s: Seq<u8>, k: nat) -> Seq<u8>
    decreases k,
{
    if k == 0 {
        s
    } else {
        le_inc(le_plus(s, (k - 1) as nat))
    }
}

/// Counting on by less than a round of the low byte moves that byte, and the rest by one
/// where it comes round.
pub proof fn lemma_le_plus(s: Seq<u8>, k: nat)
    requires
        s.len() == 16,
        k <= 255,
    ensures
        le_plus(s, k) == if s[0] + k <= 255 {
            s.update(0, (s[0] + k) as u8)
        } else {
            seq![(s[0] + k - 256) as u8] + le_inc(s.skip(1))
        },
        le_plus(s, k).len() == 16,
    decreases k,
{
    le_dec_undoes_le_inc(s.skip(1));
    if k == 0 {
        assert(s.update(0, s[0]) =~= s);
    } else {
        let j = (k - 1) as nat;
        lemma_le_plus(s, j);
        let before = le_plus(s, j);
        if s[0] + k <= 255 {
            assert(le_plus(s, k) =~= s.update(0, (s[0] + k) as u8));
        } else if s[0] + k == 256 {
            assert(before.skip(1) =~= s.skip(1));
            assert(le_plus(s, k) =~= seq![0u8] + le_inc(s.skip(1)));
        } else {
            assert(le_plus(s, k) =~= seq![(s[0] + k - 256) as u8] + le_inc(s.skip(1)));
        }
    }
}

/// Losses do not stop the stream: a packet that comes after up to 126 lost ones opens to
/// the plaintext that was sealed, unless the history holds its counter already. The
/// counter catches up, and the lost ones are counted.
pub proof fn sealed_packet_opens_after_losses(
    st: CryptModel,
    k: nat,
    plain: Seq<u8>,
    packet: Seq<u8>,
)
    requires
        st.decrypt_iv.len() == 16,
        2 <= k <= 127,
        sealed_packet(st.key, le_plus(st.decrypt_iv, k), plain, packet),
        st.history[packet[0] as int] != Some(le_plus(st.decrypt_iv, k)[1]),
    ensures
        decrypt_step(st, packet) == (state_after(st, packet), Some(plain)),
        state_after(st, packet).decrypt_iv == le_plus(st.decrypt_iv, k),
        state_after(st, packet).lost == wrapping_sum(st.lost, k - 1),
        state_after(st, packet).late == st.late,
{
    let iv = st.decrypt_iv;
    let ahead = le_plus(iv, k);
    lemma_le_plus(iv, k);
    assert(iv_distance(iv[0], ahead[0]) == k);
    assert(iv_moved(iv, ahead[0]) =~= ahead);
    let cipher = ocb_encrypted(st.key, ahead, plain);
    assert(packet[0] == ahead[0]);
    assert(packet.skip(4) =~= cipher.0);
    assert(packet.subrange(1, 4) =~= cipher.1.take(3));
}

/// A packet that comes up to 29 packets late still opens to the plaintext that was
/// sealed, unless it was taken before. It is counted as late, and the counter stays.
pub proof fn late_packet_opens(
    st: CryptModel,
    iv: Seq<u8>,
    k: nat,
    plain: Seq<u8>,
    packet: Seq<u8>,
)
    requires
        iv.len() == 16,
        1 <= k <= 29,
        st.decrypt_iv == le_plus(iv, k),
        sealed_packet(st.key, iv, plain, packet),
        st.history[packet[0] as int] != Some(iv[1]),
    ensures
        decrypt_step(st, packet) == (state_after(st, packet), Some(plain)),
        state_after(st, packet).decrypt_iv == st.decrypt_iv,
        state_after(st, packet).late == wrapping_sum(st.late, 1),
        state_after(st, packet).lost == st.lost,
{
    lemma_le_plus(iv, k);
    le_dec_undoes_le_inc(iv.skip(1));
    let now = st.decrypt_iv;
    assert(iv_distance(now[0], iv[0]) == -(k as int));
    if iv[0] + k <= 255 {
        assert(iv_moved(now, iv[0]) =~= iv);
    } else {
        assert(now.skip(1) =~= le_inc(iv.skip(1)));
        assert(iv_moved(now, iv[0]) =~= iv);
    }
    let cipher = ocb_encrypted(st.key, iv, plain);
    assert(packet[0] == iv[0]);
    assert(packet.skip(4) =~= cipher.0);
    assert(packet.subrange(1, 4) =~= cipher.1.take(3));
}

/// A state that has seen no packet takes the first one that arrives, though those before
/// it were lost.
pub proof fn losses_at_the_start_are_tolerated(
    key: Seq<u8>,
    encrypt_iv: Seq<u8>,
    decrypt_iv: Seq<u8>,
    k: nat,
    plain: Seq<u8>,
    packet: Seq<u8>,
)
    requires
        decrypt_iv.len() == 16,
        2 <= k <= 127,
        sealed_packet(key, le_plus(decrypt_iv, k), plain, packet),
    ensures
        ({
            let (after, text) = decrypt_step(fresh_crypt(key, encrypt_iv, decrypt_iv), packet);
            text == Some(plain) && after.good == 1 && after.late == 0 && after.lost == k - 1
        }),
{
    sealed_packet_opens_after_losses(
        fresh_crypt(key, encrypt_iv, decrypt_iv),
        k,
        plain,
        packet,
    );
}

/// A packet that was taken is refused when it comes again at once, and the
/// refusal changes nothing.
pub proof fn replay_is_refused(st: CryptModel, packet: Seq<u8>)
    requires
        st.decrypt_iv.len() == 16,
        st.history.len() == 256,
        packet_taken(st, packet),
    ensures
        decrypt_step(state_after(st, packet), packet) == (state_after(st, packet), None::<Seq<u8>>),
{
    let after = state_after(st, packet);
    let iv = iv_moved(st.decrypt_iv, packet[0]);
    if iv_distance(st.decrypt_iv[0], packet[0]) < 0 {
        assert(after.history[packet[0] as int] == Some(iv[1]));
    } else {
        assert(after.decrypt_iv[0] == packet[0]);
    }
}

/// A packet that was taken in order is still refused after the next one in order
/// was taken: it comes out of order then, and the history knows it.
pub proof fn replay_after_next_is_refused(st: CryptModel, first: Seq<u8>, second: Seq<u8>)
    requires
        st.decrypt_iv.len() == 16,
        st.history.len() == 256,
        packet_taken(st, first),
        iv_in_order(st.decrypt_iv, first[0]),
        packet_taken(state_after(st, first), second),
        iv_in_order(state_after(st, first).decrypt_iv, second[0]),
    ensures
        decrypt_step(state_after(state_after(st, first), second), first).1 is None,
{
    let one = state_after(st, first);
    let two = state_after(one, second);
    let iv1 = one.decrypt_iv;
    assert(iv1 == iv_moved(st.decrypt_iv, first[0]));
    assert(iv1[0] == first[0]);
    le_dec_undoes_le_inc(iv1.skip(1));
    le_dec_undoes_le_inc(st.decrypt_iv.skip(1));
    assert(two.decrypt_iv == iv_moved(iv1, second[0]));
    assert(two.decrypt_iv[0] == second[0]);
    let back = iv_moved(two.decrypt_iv, first[0]);
    if second[0] < iv1[0] {
        assert(two.decrypt_iv.skip(1) =~= le_inc(iv1.skip(1)));
        assert(back[1] == iv1.skip(1)[0]);
    } else {
        assert(two.decrypt_iv[1] == iv1[1]);
    }
    assert(back[1] == iv1[1]);
    assert(two.history[first[0] as int] == Some(iv1[1]));
}

/// Count up the little-endian counter that `iv` holds from byte `from` on.
fn count_up(iv: &mut [u8; 16], from: usize)
    requires
        from <= 16,
    ensures
        final(iv)@ == old(iv)@.take(from as int) + le_inc(old(iv)@.skip(from as int)),
{
    let mut i: usize = from;
    assert(old(iv)@ =~= old(iv)@.take(from as int) + old(iv)@.skip(from as int));
    while i < 16
        invariant
            from <= i <= 16,
            iv@.skip(i as int) == old(iv)@.skip(i as int),
            old(iv)@.take(from as int) + le_inc(old(iv)@.skip(from as int)) == iv@.take(i as int)
                + le_inc(iv@.skip(i as int)),
        decreases 16 - i,
    {
        let ghost before = iv@;
        let ghost tail = iv@.skip(i as int);
        if iv[i] == 255 {
            iv[i] = 0;
            i = i + 1;
            assert(iv@.skip(i as int) =~= tail.skip(1));
            assert(iv@.skip(i as int) =~= old(iv)@.skip(i as int)) by {
                assert(old(iv)@.skip(i - 1).skip(1) =~= old(iv)@.skip(i as int));
            }
            assert(before.take(i - 1) + (seq![0u8] + le_inc(tail.skip(1))) =~= iv@.take(i as int)
                + le_inc(iv@.skip(i as int)));
        } else {
            iv[i] = iv[i] + 1;
            assert(iv@ =~= before.take(i as int) + le_inc(tail));
            return;
        }
    }
    assert(iv@.take(16) + le_inc(iv@.skip(16)) =~= iv@);
}

/// Count down the little-endian counter that `iv` holds from byte `from` on.
fn count_down(iv: &mut [u8; 16], from: usize)
    requires
        from <= 16,
    ensures
        final(iv)@ == old(iv)@.take(from as int) + le_dec(old(iv)@.skip(from as int)),
{
    let mut i: usize = from;
    assert(old(iv)@ =~= old(iv)@.take(from as int) + old(iv)@.skip(from as int));
    while i < 16
        invariant
            from <= i <= 16,
            iv@.skip(i as int) == old(iv)@.skip(i as int),
            old(iv)@.take(from as int) + le_dec(old(iv)@.skip(from as int)) == iv@.take(i as int)
                + le_dec(iv@.skip(i as int)),
        decreases 16 - i,
    {
        let ghost before = iv@;
        let ghost tail = iv@.skip(i as int);
        if iv[i] == 0 {
            iv[i] = 255;
            i = i + 1;
            assert(iv@.skip(i as int) =~= tail.skip(1));
            assert(iv@.skip(i as int) =~= old(iv)@.skip(i as int)) by {
                assert(old(iv)@.skip(i - 1).skip(1) =~= old(iv)@.skip(i as int));
            }
            assert(before.take(i - 1) + (seq![255u8] + le_dec(tail.skip(1))) =~= iv@.take(i as int)
                + le_dec(iv@.skip(i as int)));
        } else {
            iv[i] = iv[i] - 1;
            assert(iv@ =~= before.take(i as int) + le_dec(tail));
            return;
        }
    }
    assert(iv@.take(16) + le_dec(iv@.skip(16)) =~= iv@);
}

/// Per-peer crypt state: key, rolling nonces, replay history and packet
/// statistics.
pub struct CryptState {
    pub ocb: Ocb2,
    /// Nonce incremented before each outgoing packet.
    pub encrypt_iv: [u8; 16],
    /// Nonce tracking incoming packets (recovered on loss and reordering).
    pub decrypt_iv: [u8; 16],
    /// Replay guard: last seen `decrypt_iv[1]` indexed by `decrypt_iv[0]`, where one was
    /// seen.
    pub decrypt_history: [Option<u8>; 256],
    pub good: u32,
    pub late: u32,
    pub lost: u32,
}

impl View for CryptState {
    type V = CryptModel;

    open spec fn view(&self) -> CryptModel {
        CryptModel {
            key: self.ocb.key(),
            encrypt_iv: self.encrypt_iv@,
            decrypt_iv: self.decrypt_iv@,
            history: self.decrypt_history@,
            good: self.good,
            late: self.late,
            lost: self.lost,
        }
    }
}

impl CryptState {
    /// The lengths of what a state holds.
    pub proof fn lemma_lengths(&self)
        ensures
            self@.key.len() == 16,
            self@.encrypt_iv.len() == 16,
            self@.decrypt_iv.len() == 16,
            self@.history.len() == 256,
    {
    }

    /// Initialise from the key and both nonces (server side: `encrypt_iv` is the
    /// `server_nonce`, `decrypt_iv` the `client_nonce`).
    pub fn new(key: &[u8; 16], encrypt_iv: &[u8; 16], decrypt_iv: &[u8; 16]) -> (state: Self)
        ensures
            state@ == fresh_crypt(key@, encrypt_iv@, decrypt_iv@),
    {
        let state = Self {
            ocb: Ocb2::new(key),
            encrypt_iv: *encrypt_iv,
            decrypt_iv: *decrypt_iv,
            decrypt_history: [None; 256],
            good: 0,
            late: 0,
            lost: 0,
        };
        assert(state.decrypt_history@ =~= Seq::new(256, |i: int| None::<u8>));
        state
    }

    /// Encrypt one voice payload, producing `[iv0, tag0, tag1, tag2, cipher..]`.
    pub fn encrypt(&mut self, source: &[u8]) -> (packet: Vec<u8>)
        ensures
            final(self)@ == (CryptModel { encrypt_iv: le_inc(old(self)@.encrypt_iv), ..old(self)@ }),
            sealed_packet(old(self)@.key, le_inc(old(self)@.encrypt_iv), source@, packet@),
    {
        let mut iv = self.encrypt_iv;
        count_up(&mut iv, 0);
        assert(self.encrypt_iv@.take(0) + le_inc(self.encrypt_iv@.skip(0)) =~= le_inc(
            self.encrypt_iv@,
        )) by {
            assert(self.encrypt_iv@.skip(0) =~= self.encrypt_iv@);
        }
        self.encrypt_iv = iv;
        let mut cipher: Vec<u8> = Vec::new();
        let tag = self.ocb.ocb_encrypt(source, &mut cipher, &self.encrypt_iv);
        let mut out: Vec<u8> = Vec::new();
        out.push(self.encrypt_iv[0]);
        push_block(&mut out, &tag, 3);
        out.append(&mut cipher);
        assert(out@ =~= seq![iv@[0]] + tag@.take(3) + ocb_encrypted(self.ocb.key(), iv@, source@).0);
        out
    }

    /// Decrypt one packet. Returns the plaintext, or `None` if the packet is too
    /// short, outside the window, a replay, or fails tag verification; then the
    /// state is what it was. Otherwise the nonce, the history and the statistics
    /// move on.
    pub fn decrypt(&mut self, source: &[u8]) -> (plain: Option<Vec<u8>>)
        ensures
            final(self)@ == decrypt_step(old(self)@, source@).0,
            match decrypt_step(old(self)@, source@).1 {
                Some(text) => plain is Some && plain->0@ == text,
                None => plain is None,
            },
    {
        if source.len() < 4 {
            return None;
        }
        let ivbyte: u8 = source[0];
        let saveiv = self.decrypt_iv;
        let mut iv = self.decrypt_iv;
        let mut restore = false;
        let mut late: u32 = 0;
        let mut lost: u32 = 0;
        proof {
            assert(iv@.take(1) =~= seq![iv@[0]]);
        }

        if ((iv[0] as u16 + 1) % 256) as u8 == ivbyte {
            // In order.
            if ivbyte > iv[0] {
                iv[0] = ivbyte;
            } else {
                iv[0] = ivbyte;
                count_up(&mut iv, 1);
                assert(iv@ =~= seq![ivbyte] + le_inc(saveiv@.skip(1))) by {
                    assert(saveiv@.update(0, ivbyte).skip(1) =~= saveiv@.skip(1));
                    assert(saveiv@.update(0, ivbyte).take(1) =~= seq![ivbyte]);
                }
            }
        } else {
            // Out of order or repeat.
            let mut diff: i32 = ivbyte as i32 - iv[0] as i32;
            if diff > 128 {
                diff = diff - 256;
            } else if diff < -128 {
                diff = diff + 256;
            }
            proof {
                assert(saveiv@.update(0, ivbyte).skip(1) =~= saveiv@.skip(1));
                assert(saveiv@.update(0, ivbyte).take(1) =~= seq![ivbyte]);
            }
            if ivbyte < iv[0] && diff > -30 && diff < 0 {
                late = 1;
                iv[0] = ivbyte;
                restore = true;
            } else if ivbyte > iv[0] && diff > -30 && diff < 0 {
                late = 1;
                iv[0] = ivbyte;
                count_down(&mut iv, 1);
                restore = true;
            } else if ivbyte > iv[0] && diff > 0 {
                lost = (ivbyte - iv[0] - 1) as u32;
                iv[0] = ivbyte;
            } else if ivbyte < iv[0] && diff > 0 {
                lost = 256 - iv[0] as u32 + ivbyte as u32 - 1;
                iv[0] = ivbyte;
                count_up(&mut iv, 1);
            } else {
                return None;
            }
            assert(iv@ =~= iv_moved(saveiv@, ivbyte));
            if let Some(seen) = self.decrypt_history[iv[0] as usize] {
                if seen == iv[1] {
                    return None;
                }
            }
        }
        assert(iv@ =~= iv_moved(saveiv@, ivbyte));
        let mut plain: Vec<u8> = Vec::new();
        let body = vstd::slice::slice_subrange(source, 4, source.len());
        assert(body@ =~= source@.skip(4));
        let tag = self.ocb.ocb_decrypt(body, &mut plain, &iv);
        if tag[0] != source[1] || tag[1] != source[2] || tag[2] != source[3] {
            assert(tag@.take(3)[0] != source@.subrange(1, 4)[0] || tag@.take(3)[1]
                != source@.subrange(1, 4)[1] || tag@.take(3)[2] != source@.subrange(1, 4)[2]);
            return None;
        }
        assert(tag@.take(3) =~= source@.subrange(1, 4));
        self.decrypt_history[iv[0] as usize] = Some(iv[1]);
        if !restore {
            self.decrypt_iv = iv;
        }
        self.good = self.good.wrapping_add(1);
        self.late = self.late.wrapping_add(late);
        if lost > 0 {
            self.lost = self.lost.wrapping_add(lost);
        }
        assert(self@ == state_after(old(self)@, source@));
        Some(plain)
    }

    /// The packet statistics: good, late and lost.
    pub fn counters(&self) -> (c: (u32, u32, u32))
        ensures
            c == (self@.good, self@.late, self@.lost),
    {
        (self.good, self.late, self.lost)
    }

    /// The nonce of outgoing packets, as the peer has to know it.
    pub fn server_nonce(&self) -> (nonce: [u8; 16])
        ensures
            nonce@ == self@.encrypt_iv,
    {
        self.encrypt_iv
    }

    /// Adopt the nonce that the peer asks to resynchronise to.
    pub fn resync(&mut self, nonce: &[u8; 16])
        ensures
            final(self)@ == (CryptModel { decrypt_iv: nonce@, ..old(self)@ }),
    {
        self.decrypt_iv = *nonce;
    }
}

/// The crypt states of all connected sessions.
pub struct CryptTable {
    states: IdMap<CryptState>,
}

impl View for CryptTable {
    type V = Map<u32, CryptModel>;

    closed spec fn view(&self) -> Map<u32, CryptModel> {
        self.states@.map_values(|c: CryptState| c@)
    }
}

impl CryptTable {
    pub closed spec fn wf(&self) -> bool {
        self.states.wf()
    }

    /// The lengths of what each state holds.
    pub proof fn lemma_lengths(&self, id: u32)
        requires
            self@.contains_key(id),
        ensures
            self@[id].key.len() == 16,
            self@[id].encrypt_iv.len() == 16,
            self@[id].decrypt_iv.len() == 16,
            self@[id].history.len() == 256,
    {
        self.states@[id].lemma_lengths();
    }

    pub fn new() -> (table: Self)
        ensures
            table.wf(),
            table@ == Map::<u32, CryptModel>::empty(),
    {
        let table = CryptTable { states: IdMap::new() };
        assert(table@ =~= Map::<u32, CryptModel>::empty());
        table
    }

    pub fn insert(&mut self, id: u32, state: CryptState)
        requires
            old(self).wf(),
        ensures
            final(self).wf(),
            final(self)@ == old(self)@.insert(id, state@),
    {
        self.states.insert(id, state);
        assert(self@ =~= old(self)@.insert(id, state@));
    }

    pub fn remove(&mut self, id: u32)
        requires
            old(self).wf(),
        ensures
            final(self).wf(),
            final(self)@ == old(self)@.remove(id),
    {
        self.states.remove(id);
        assert(self@ =~= old(self)@.remove(id));
    }

    pub fn get(&self, id: u32) -> (state: Option<&CryptState>)
        requires
            self.wf(),
        ensures
            match state {
                Some(c) => self@.contains_key(id) && c@ == self@[id],
                None => !self@.contains_key(id),
            },
    {
        self.states.get(id)
    }

    pub fn get_mut(&mut self, id: u32) -> (state: Option<&mut CryptState>)
        requires
            old(self).wf(),
        ensures
            final(self).wf(),
            match state {
                Some(c) => old(self)@.contains_key(id) && c@ == old(self)@[id] && final(self)@
                    == old(self)@.insert(id, final(c)@),
                None => !old(self)@.contains_key(id) && final(self)@ == old(self)@,
            },
    {
        let ghost stored = self.states@;
        assert forall|c: CryptState|
            (#[trigger] stored.insert(id, c)).map_values(|c: CryptState| c@) == old(self)@.insert(
                id,
                c@,
            ) by {
            assert(stored.insert(id, c).map_values(|c: CryptState| c@) =~= old(self)@.insert(
                id,
                c@,
            ));
        }
        self.states.get_mut(id)
    }

    /// The ids of all sessions with a crypt state, ascending.
    pub fn ids(&self) -> (ids: Vec<u32>)
        requires
            self.wf(),
        ensures
            lists(ids@, self@.dom()),
    {
        assert(self@.dom() =~= self.states@.dom());
        self.states.keys()
    }
}

} // verus!
