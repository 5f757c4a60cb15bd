//! What sealed voice packets are on the wire, block by block: what any other OCB2-AES128
//! peer computes, and what a receiver refuses.
use crate::crypto::{
    aes128_decrypt, aes128_encrypt, decrypt_step, doubled, le_dec_undoes_le_inc, le_inc, le_plus,
    lemma_le_plus, length_block, ocb_decrypted, ocb_encrypted, ocb_open, ocb_seal, packet_taken,
    sealed_packet, tripled, xor_seq, zero_block, CryptModel,
};
use vstd::arithmetic::power::pow;
use vstd::prelude::*;

verus! {

// --- the field ---

/// The number that a block is, most significant byte first.
pub open spec fn be_number(s: Seq<u8>) -> int
    decreases s.len(),
{
    if s.len() == 0 {
        0
    } else {
        be_number(s.drop_last()) * 256 + s.last()
    }
}

proof fn lemma_shifted_byte(b: u8, next: u8)
    by (bit_vector)
    ensures
        b >> 7 == 0 || b >> 7 == 1,
        ((b << 1) | (next >> 7)) == 2 * b - 256 * (b >> 7) + (next >> 7),
        (b << 1) == 2 * b - 256 * (b >> 7),
        b >> 7 == b / 128,
        ((b << 1) ^ 0x87u8) ^ 0x87u8 == b << 1,
{
}

/// A block shifted left by one bit, without what falls off.
spec fn shifted(b: Seq<u8>) -> Seq<u8> {
    Seq::new(
        16,
        |i: int|
            if i < 15 {
                (b[i] << 1) | (b[i + 1] >> 7)
            } else {
                b[15] << 1
            },
    )
}

proof fn lemma_shifted(b: Seq<u8>, k: int)
    requires
        b.len() == 16,
        0 <= k <= 16,
    ensures
        be_number(shifted(b).take(k)) == 2 * be_number(b.take(k)) + (if k < 16 {
            (b[k] >> 7) as int
        } else {
            0
        }) - (b[0] >> 7) * pow(256, k as nat),
    decreases k,
{
    if k == 0 {
        assert(pow(256, 0) == 1) by {
            vstd::arithmetic::power::lemma_pow0(256);
        }
    } else {
        lemma_shifted(b, k - 1);
        let s = shifted(b);
        assert(s.take(k).drop_last() =~= s.take(k - 1));
        assert(b.take(k).drop_last() =~= b.take(k - 1));
        assert(s.take(k).last() == s[k - 1]);
        assert(b.take(k).last() == b[k - 1]);
        if k < 16 {
            lemma_shifted_byte(b[k - 1], b[k]);
        } else {
            lemma_shifted_byte(b[k - 1], 0);
        }
        let h = (b[0] >> 7) as int;
        let p = pow(256, (k - 1) as nat);
        assert(pow(256, k as nat) == 256 * p) by {
            vstd::arithmetic::power::lemma_pow1(256);
            reveal(pow);
        }
        assert(h * (256 * p) == 256 * (h * p)) by (nonlinear_arith);
    }
}

proof fn lemma_be_number_bound(s: Seq<u8>)
    ensures
        0 <= be_number(s) < pow(256, s.len()),
    decreases s.len(),
{
    reveal(pow);
    if s.len() > 0 {
        lemma_be_number_bound(s.drop_last());
    }
}

/// Doubling a block doubles its number in GF(2^128): nothing falls off the top of a
/// small one, and what falls off a large one comes back as the polynomial 0x87.
pub proof fn doubling_is_that_of_the_field(b: Seq<u8>)
    requires
        b.len() == 16,
    ensures
        doubled(b).len() == 16,
        b[0] < 128 ==> be_number(doubled(b)) == 2 * be_number(b),
        b[0] >= 128 ==> be_number(doubled(b).update(15, doubled(b)[15] ^ 0x87)) == 2 * be_number(b)
            - pow(256, 16),
{
    lemma_shifted(b, 16);
    assert(shifted(b).take(16) =~= shifted(b));
    assert(b.take(16) =~= b);
    lemma_shifted_byte(b[0], 0);
    lemma_shifted_byte(b[15], 0);
    if b[0] < 128 {
        assert(doubled(b) =~= shifted(b));
    } else {
        assert(doubled(b).update(15, doubled(b)[15] ^ 0x87) =~= shifted(b));
    }
}

/// Tripling a block adds its double to it, bit by bit.
pub proof fn tripling_adds_the_double(b: Seq<u8>, i: int)
    requires
        b.len() == 16,
        0 <= i < 16,
    ensures
        tripled(b).len() == 16,
        tripled(b)[i] == b[i] ^ doubled(b)[i],
{
}

// --- the mode ---

/// The cipher takes a block to a block, and can be undone.
pub open spec fn is_block_cipher(key: Seq<u8>) -> bool {
    forall|block: Seq<u8>|
        block.len() == 16 ==> (#[trigger] aes128_encrypt(key, block)).len() == 16
            && aes128_decrypt(key, aes128_encrypt(key, block)) == block
}

/// The mask of the block with the given number, counted from one: the encrypted nonce,
/// doubled as often.
pub open spec fn block_mask(key: Seq<u8>, nonce: Seq<u8>, number: nat) -> Seq<u8>
    decreases number,
{
    if number == 0 {
        aes128_encrypt(key, nonce)
    } else {
        doubled(block_mask(key, nonce, (number - 1) as nat))
    }
}

/// How many blocks stand before the last one, which may be a partial one.
pub open spec fn full_blocks(len: nat) -> nat {
    if len == 0 {
        0
    } else {
        ((len - 1) / 16) as nat
    }
}

/// The exclusive or of the bytes in column `j` of the first `count` blocks.
pub open spec fn column_parity(text: Seq<u8>, j: int, count: nat) -> u8
    decreases count,
{
    if count == 0 {
        0
    } else {
        column_parity(text, j, (count - 1) as nat) ^ text[16 * (count - 1) + j]
    }
}

/// The cipher block that masks the last chunk, of `len` bytes: its mask with the bit
/// length of the chunk in the last byte.
pub open spec fn last_block_pad(key: Seq<u8>, mask: Seq<u8>, len: nat) -> Seq<u8> {
    aes128_encrypt(
        key,
        Seq::new(
            16,
            |j: int|
                if j == 15 {
                    mask[j] ^ ((8 * len) as u8)
                } else {
                    mask[j]
                },
        ),
    )
}

/// The last chunk, filled up to a block from its pad.
pub open spec fn filled_up(chunk: Seq<u8>, pad: Seq<u8>, j: int) -> u8 {
    if j < chunk.len() {
        chunk[j]
    } else {
        pad[j]
    }
}

proof fn lemma_xor(a: u8, b: u8, c: u8)
    by (bit_vector)
    ensures
        a ^ b == b ^ a,
        (a ^ b) ^ c == a ^ (b ^ c),
        a ^ 0 == a,
        0 ^ a == a,
        a ^ a == 0,
        a ^ b == a ^ c ==> b == c,
{
}

proof fn lemma_mask_len(key: Seq<u8>, nonce: Seq<u8>, k: nat)
    requires
        is_block_cipher(key),
        nonce.len() == 16,
    ensures
        block_mask(key, nonce, k).len() == 16,
    decreases k,
{
    if k > 0 {
        lemma_mask_len(key, nonce, (k - 1) as nat);
    }
}

/// What sealing leaves of a text from its block `k` on.
spec fn sealed_from(key: Seq<u8>, nonce: Seq<u8>, plain: Seq<u8>, k: nat) -> (Seq<u8>, Seq<u8>) {
    ocb_seal(
        key,
        block_mask(key, nonce, k),
        Seq::new(16, |j: int| column_parity(plain, j, k)),
        plain.skip(16 * k as int),
    )
}

proof fn lemma_sealed_from(key: Seq<u8>, nonce: Seq<u8>, plain: Seq<u8>, k: nat)
    requires
        is_block_cipher(key),
        nonce.len() == 16,
        k <= full_blocks(plain.len()),
    ensures
        sealed_from(key, nonce, plain, k).0.len() == plain.len() - 16 * k,
        ocb_encrypted(key, nonce, plain).0.len() == plain.len(),
        ocb_encrypted(key, nonce, plain).0.skip(16 * k as int) == sealed_from(
            key,
            nonce,
            plain,
            k,
        ).0,
        ocb_encrypted(key, nonce, plain).1 == sealed_from(key, nonce, plain, k).1,
    decreases k,
{
    if k == 0 {
        assert(Seq::new(16, |j: int| column_parity(plain, j, 0)) =~= zero_block());
        assert(plain.skip(0) =~= plain);
        lemma_seal_len(key, block_mask(key, nonce, 0), zero_block(), plain);
        let whole = ocb_encrypted(key, nonce, plain).0;
        assert(whole.skip(0) =~= whole);
    } else {
        let j = (k - 1) as nat;
        lemma_sealed_from(key, nonce, plain, j);
        lemma_mask_len(key, nonce, j);
        let rest = plain.skip(16 * j as int);
        assert(rest.len() > 16);
        assert(rest.skip(16) =~= plain.skip(16 * k as int));
        let chunk = rest.take(16);
        let before = Seq::new(16, |c: int| column_parity(plain, c, j));
        let after = Seq::new(16, |c: int| column_parity(plain, c, k));
        assert(xor_seq(before, chunk) =~= after);
        let d = block_mask(key, nonce, k);
        lemma_mask_len(key, nonce, k);
        let block = xor_seq(d, aes128_encrypt(key, xor_seq(d, chunk)));
        assert(block.len() == 16);
        let whole = ocb_encrypted(key, nonce, plain).0;
        assert(whole.skip(16 * j as int).skip(16) =~= whole.skip(16 * k as int));
        assert((block + sealed_from(key, nonce, plain, k).0).skip(16) =~= sealed_from(
            key,
            nonce,
            plain,
            k,
        ).0);
    }
}

proof fn lemma_seal_len(key: Seq<u8>, delta: Seq<u8>, checksum: Seq<u8>, plain: Seq<u8>)
    requires
        is_block_cipher(key),
    ensures
        ocb_seal(key, delta, checksum, plain).0.len() == plain.len(),
    decreases plain.len(),
{
    let d = doubled(delta);
    if plain.len() > 16 {
        lemma_seal_len(key, d, xor_seq(checksum, plain.take(16)), plain.skip(16));
    } else {
        assert(xor_seq(length_block(plain.len()), d).len() == 16);
    }
}

/// Every block but the last is encrypted between two masks: the block with the given
/// number is exclusive-or'ed with its mask, encrypted, and exclusive-or'ed with the mask
/// again.
pub proof fn full_blocks_are_masked_twice(
    key: Seq<u8>,
    nonce: Seq<u8>,
    plain: Seq<u8>,
    k: nat,
    b: int,
)
    requires
        is_block_cipher(key),
        nonce.len() == 16,
        k < full_blocks(plain.len()),
        0 <= b < 16,
    ensures
        ({
            let mask = block_mask(key, nonce, k + 1);
            let input = Seq::new(16, |j: int| mask[j] ^ plain[16 * k + j]);
            &&& ocb_encrypted(key, nonce, plain).0.len() == plain.len()
            &&& ocb_encrypted(key, nonce, plain).0[16 * k + b] == mask[b] ^ aes128_encrypt(
                key,
                input,
            )[b]
        }),
{
    lemma_sealed_from(key, nonce, plain, k);
    lemma_mask_len(key, nonce, k);
    lemma_mask_len(key, nonce, k + 1);
    let mask = block_mask(key, nonce, k + 1);
    let rest = plain.skip(16 * k as int);
    let input = Seq::new(16, |j: int| mask[j] ^ plain[16 * k + j]);
    assert(xor_seq(mask, rest.take(16)) =~= input);
    let whole = ocb_encrypted(key, nonce, plain).0;
    assert(whole.skip(16 * k as int)[b] == whole[16 * k + b]);
}

/// The last chunk, whole or partial, is exclusive-or'ed with its pad.
pub proof fn the_last_chunk_is_padded(key: Seq<u8>, nonce: Seq<u8>, plain: Seq<u8>, b: int)
    requires
        is_block_cipher(key),
        nonce.len() == 16,
        16 * full_blocks(plain.len()) <= b < plain.len(),
    ensures
        ({
            let m = full_blocks(plain.len());
            let len = (plain.len() - 16 * m) as nat;
            let pad = last_block_pad(key, block_mask(key, nonce, m + 1), len);
            &&& 1 <= len <= 16
            &&& ocb_encrypted(key, nonce, plain).0.len() == plain.len()
            &&& ocb_encrypted(key, nonce, plain).0[b] == plain[b] ^ pad[b - 16 * m]
        }),
{
    let m = full_blocks(plain.len());
    let len = (plain.len() - 16 * m) as nat;
    lemma_sealed_from(key, nonce, plain, m);
    lemma_mask_len(key, nonce, m + 1);
    let mask = block_mask(key, nonce, m + 1);
    lemma_pad(key, mask, len);
    let pad = last_block_pad(key, mask, len);
    let rest = plain.skip(16 * m as int);
    let whole = ocb_encrypted(key, nonce, plain).0;
    let i = b - 16 * m;
    assert(whole.skip(16 * m as int)[i] == whole[b]);
    assert(rest[i] == plain[b]);
    lemma_xor(pad[i], plain[b], 0);
}

proof fn lemma_pad(key: Seq<u8>, mask: Seq<u8>, len: nat)
    requires
        is_block_cipher(key),
        mask.len() == 16,
        len <= 16,
    ensures
        last_block_pad(key, mask, len) == aes128_encrypt(key, xor_seq(length_block(len), mask)),
        last_block_pad(key, mask, len).len() == 16,
{
    let input = Seq::new(
        16,
        |j: int|
            if j == 15 {
                mask[j] ^ ((8 * len) as u8)
            } else {
                mask[j]
            },
    );
    assert forall|j: int| 0 <= j < 16 implies #[trigger] xor_seq(length_block(len), mask)[j]
        == input[j] by {
        lemma_xor(mask[j], (8 * len) as u8, 0);
        lemma_xor(0, mask[j], 0);
    }
    assert(xor_seq(length_block(len), mask) =~= input);
}

/// The tag is made of every block of the text: it is the encryption of the tripled mask
/// of the last block, exclusive-or'ed with all the blocks, the last one filled up from
/// its pad.
pub proof fn the_tag_is_made_of_every_block(key: Seq<u8>, nonce: Seq<u8>, plain: Seq<u8>)
    requires
        is_block_cipher(key),
        nonce.len() == 16,
    ensures
        ({
            let m = full_blocks(plain.len());
            let chunk = plain.skip(16 * m as int);
            let mask = block_mask(key, nonce, m + 1);
            let twice = block_mask(key, nonce, m + 2);
            let pad = last_block_pad(key, mask, chunk.len());
            ocb_encrypted(key, nonce, plain).1 == aes128_encrypt(
                key,
                Seq::new(
                    16,
                    |j: int|
                        (mask[j] ^ twice[j]) ^ (column_parity(plain, j, m) ^ filled_up(
                            chunk,
                            pad,
                            j,
                        )),
                ),
            )
        }),
{
    let m = full_blocks(plain.len());
    let chunk = plain.skip(16 * m as int);
    lemma_sealed_from(key, nonce, plain, m);
    lemma_mask_len(key, nonce, m + 1);
    let mask = block_mask(key, nonce, m + 1);
    lemma_pad(key, mask, chunk.len());
    let pad = last_block_pad(key, mask, chunk.len());
    let checksum = Seq::new(16, |j: int| column_parity(plain, j, m));
    let last = chunk + pad.skip(chunk.len() as int);
    let twice = block_mask(key, nonce, m + 2);
    assert(twice == doubled(mask));
    assert(xor_seq(tripled(mask), xor_seq(checksum, last)) =~= Seq::new(
        16,
        |j: int|
            (mask[j] ^ twice[j]) ^ (column_parity(plain, j, m) ^ filled_up(chunk, pad, j)),
    ));
}

proof fn lemma_parity_differs(a: Seq<u8>, b: Seq<u8>, k: nat, j: int, count: nat)
    requires
        a.len() == b.len(),
        0 <= j < 16,
        16 * count <= a.len(),
        forall|i: int| 0 <= i < a.len() && i / 16 != k ==> #[trigger] a[i] == b[i],
    ensures
        k >= count ==> column_parity(a, j, count) == column_parity(b, j, count),
        k < count && a[16 * k + j] != b[16 * k + j] ==> column_parity(a, j, count)
            != column_parity(b, j, count),
    decreases count,
{
    if count > 0 {
        let before = (count - 1) as nat;
        lemma_parity_differs(a, b, k, j, before);
        let i = 16 * before + j;
        assert(i / 16 == before);
        lemma_xor(column_parity(a, j, before), a[i], b[i]);
        lemma_xor(a[i], column_parity(a, j, before), column_parity(b, j, before));
        lemma_xor(b[i], column_parity(b, j, before), column_parity(a, j, before));
    }
}

/// No block can be exchanged unnoticed: two texts of the same length that differ in one
/// block only, whichever it is, get different tags under one nonce.
pub proof fn a_changed_block_changes_the_tag(
    key: Seq<u8>,
    nonce: Seq<u8>,
    a: Seq<u8>,
    b: Seq<u8>,
    k: nat,
)
    requires
        is_block_cipher(key),
        nonce.len() == 16,
        a.len() == b.len(),
        a != b,
        forall|i: int| 0 <= i < a.len() && i / 16 != k ==> #[trigger] a[i] == b[i],
    ensures
        ocb_encrypted(key, nonce, a).1 != ocb_encrypted(key, nonce, b).1,
{
    the_tag_is_made_of_every_block(key, nonce, a);
    the_tag_is_made_of_every_block(key, nonce, b);
    let m = full_blocks(a.len());
    let ca = a.skip(16 * m as int);
    let cb = b.skip(16 * m as int);
    let mask = block_mask(key, nonce, m + 1);
    let twice = block_mask(key, nonce, m + 2);
    let pad = last_block_pad(key, mask, ca.len());
    let ia = Seq::new(
        16,
        |j: int| (mask[j] ^ twice[j]) ^ (column_parity(a, j, m) ^ filled_up(ca, pad, j)),
    );
    let ib = Seq::new(
        16,
        |j: int| (mask[j] ^ twice[j]) ^ (column_parity(b, j, m) ^ filled_up(cb, pad, j)),
    );
    if forall|i: int| 0 <= i < a.len() ==> a[i] == b[i] {
        assert(a =~= b);
    }
    let i = choose|i: int| 0 <= i < a.len() && a[i] != b[i];
    assert(i / 16 == k);
    let j = i - 16 * k;
    assert(0 <= j < 16);
    lemma_parity_differs(a, b, k, j, m);
    let fa = filled_up(ca, pad, j);
    let fb = filled_up(cb, pad, j);
    let pa = column_parity(a, j, m);
    let pb = column_parity(b, j, m);
    if k < m {
        if j < ca.len() {
            assert((16 * m + j) / 16 == m);
            assert(ca[j] == a[16 * m + j] && cb[j] == b[16 * m + j]);
        }
        assert(fa == fb);
        lemma_xor(fa, pa, pb);
        lemma_xor(pa, fa, fb);
        lemma_xor(pb, fa, fb);
    } else {
        assert(k == m);
        assert(pa == pb);
        assert(ca[j] == a[i] && cb[j] == b[i]);
        lemma_xor(pa, fa, fb);
    }
    lemma_xor(mask[j] ^ twice[j], pa ^ fa, pb ^ fb);
    assert(ia[j] != ib[j]);
    assert(aes128_decrypt(key, aes128_encrypt(key, ia)) == ia);
    assert(aes128_decrypt(key, aes128_encrypt(key, ib)) == ib);
}

proof fn lemma_opened(key: Seq<u8>, delta: Seq<u8>, checksum: Seq<u8>, plain: Seq<u8>)
    requires
        is_block_cipher(key),
        delta.len() == 16,
    ensures
        ocb_open(key, delta, checksum, ocb_seal(key, delta, checksum, plain).0) == (
            plain,
            ocb_seal(key, delta, checksum, plain).1,
        ),
    decreases plain.len(),
{
    let d = doubled(delta);
    let sealed = ocb_seal(key, delta, checksum, plain);
    lemma_seal_len(key, delta, checksum, plain);
    if plain.len() > 16 {
        let chunk = plain.take(16);
        let masked = xor_seq(d, chunk);
        let enc = aes128_encrypt(key, masked);
        let block = xor_seq(d, enc);
        let rest = ocb_seal(key, d, xor_seq(checksum, chunk), plain.skip(16));
        lemma_opened(key, d, xor_seq(checksum, chunk), plain.skip(16));
        assert(sealed.0.take(16) =~= block);
        assert(sealed.0.skip(16) =~= rest.0);
        assert forall|j: int| 0 <= j < 16 implies #[trigger] xor_seq(d, block)[j] == enc[j] by {
            lemma_xor(d[j], d[j], enc[j]);
            lemma_xor(enc[j], 0, 0);
        }
        assert forall|j: int| 0 <= j < 16 implies #[trigger] xor_seq(d, masked)[j] == chunk[j] by {
            lemma_xor(d[j], d[j], chunk[j]);
            lemma_xor(chunk[j], 0, 0);
        }
        assert(xor_seq(d, block) =~= enc);
        assert(xor_seq(d, masked) =~= chunk);
        assert(chunk + plain.skip(16) =~= plain);
    } else {
        let n = plain.len() as int;
        let pad = aes128_encrypt(key, xor_seq(length_block(plain.len()), d));
        assert(xor_seq(length_block(plain.len()), d).len() == 16);
        let last = plain + pad.skip(n);
        let mixed = sealed.0 + pad.skip(n);
        assert forall|j: int| 0 <= j < n implies #[trigger] xor_seq(pad, mixed).take(n)[j]
            == plain[j] by {
            lemma_xor(pad[j], pad[j], last[j]);
            lemma_xor(last[j], 0, 0);
        }
        assert(xor_seq(pad, mixed).take(n) =~= plain);
    }
}

/// Opening undoes sealing, for a text of any length: the text comes back, and with it the
/// tag that was made of it.
pub proof fn opening_undoes_sealing(key: Seq<u8>, nonce: Seq<u8>, plain: Seq<u8>)
    requires
        is_block_cipher(key),
        nonce.len() == 16,
    ensures
        ocb_decrypted(key, nonce, ocb_encrypted(key, nonce, plain).0) == (
            plain,
            ocb_encrypted(key, nonce, plain).1,
        ),
{
    lemma_opened(key, aes128_encrypt(key, nonce), zero_block(), plain);
}

// --- the nonce ---

/// The number that a nonce counts, least significant byte first.
pub open spec fn le_number(s: Seq<u8>) -> int
    decreases s.len(),
{
    if s.len() == 0 {
        0
    } else {
        s[0] + 256 * le_number(s.skip(1))
    }
}

/// The nonce of a packet is the nonce of the packet before it plus one, and comes round to
/// zero after the largest one.
pub proof fn nonces_count_by_one(s: Seq<u8>)
    ensures
        le_inc(s).len() == s.len(),
        0 <= le_number(s) < pow(256, s.len()),
        le_number(le_inc(s)) == if le_number(s) + 1 == pow(256, s.len()) {
            0
        } else {
            le_number(s) + 1
        },
    decreases s.len(),
{
    reveal(pow);
    if s.len() > 0 {
        let rest = s.skip(1);
        nonces_count_by_one(rest);
        let up = le_inc(s);
        if s[0] == 255 {
            assert(up.skip(1) =~= le_inc(rest));
        } else {
            assert(up.skip(1) =~= rest);
        }
        assert(pow(256, s.len()) == 256 * pow(256, rest.len()));
    }
}

// --- the wire ---

/// A packet starts with the low byte of its nonce, then come the first three bytes of the
/// tag, then the ciphertext, which is as long as the text.
pub proof fn a_packet_is_laid_out_on_the_wire(
    key: Seq<u8>,
    iv: Seq<u8>,
    plain: Seq<u8>,
    packet: Seq<u8>,
)
    requires
        sealed_packet(key, iv, plain, packet),
    ensures
        packet.len() == plain.len() + 4,
        packet[0] == iv[0],
        packet[1] == ocb_encrypted(key, iv, plain).1[0],
        packet[2] == ocb_encrypted(key, iv, plain).1[1],
        packet[3] == ocb_encrypted(key, iv, plain).1[2],
        packet.skip(4) == ocb_encrypted(key, iv, plain).0,
        ocb_decrypted(key, iv, packet.skip(4)) == (plain, ocb_encrypted(key, iv, plain).1),
{
    assert(packet.skip(4) =~= ocb_encrypted(key, iv, plain).0);
}

/// A packet whose tag was tampered with, in whichever of its three bytes, is refused, and
/// nothing changes.
pub proof fn a_wrong_tag_is_refused(st: CryptModel, good: Seq<u8>, bad: Seq<u8>)
    requires
        packet_taken(st, good),
        bad.len() == good.len(),
        bad[0] == good[0],
        bad.skip(4) == good.skip(4),
        bad[1] != good[1] || bad[2] != good[2] || bad[3] != good[3],
    ensures
        decrypt_step(st, bad) == (st, None::<Seq<u8>>),
{
    assert(good.subrange(1, 4)[0] == good[1] && bad.subrange(1, 4)[0] == bad[1]);
    assert(good.subrange(1, 4)[1] == good[2] && bad.subrange(1, 4)[1] == bad[2]);
    assert(good.subrange(1, 4)[2] == good[3] && bad.subrange(1, 4)[2] == bad[3]);
}

/// A packet that is too short to hold a header is refused.
pub proof fn a_short_packet_is_refused(st: CryptModel, packet: Seq<u8>)
    requires
        packet.len() < 4,
    ensures
        decrypt_step(st, packet) == (st, None::<Seq<u8>>),
{
}

/// A packet that comes thirty packets late or more is refused, whatever it holds; so is
/// one with the counter of the packet that was taken last.
pub proof fn a_stale_packet_is_refused(st: CryptModel, iv: Seq<u8>, k: nat, packet: Seq<u8>)
    requires
        iv.len() == 16,
        k == 0 || 30 <= k <= 127,
        st.decrypt_iv == le_plus(iv, k),
        packet.len() > 0,
        packet[0] == iv[0],
    ensures
        decrypt_step(st, packet) == (st, None::<Seq<u8>>),
{
    lemma_le_plus(iv, k);
    le_dec_undoes_le_inc(iv.skip(1));
}

/// Every packet that is taken is counted once as good. Its nonce becomes the one that is
/// known of its low byte, and what goes out is untouched.
pub proof fn a_taken_packet_is_counted(st: CryptModel, packet: Seq<u8>)
    requires
        packet_taken(st, packet),
        st.decrypt_iv.len() == 16,
        st.history.len() == 256,
    ensures
        ({
            let after = decrypt_step(st, packet).0;
            &&& st.good < u32::MAX ==> after.good == st.good + 1
            &&& after.late == st.late || after.lost == st.lost
            &&& after.key == st.key
            &&& after.encrypt_iv == st.encrypt_iv
            &&& after.history[packet[0] as int] is Some
            &&& forall|i: int|
                0 <= i < 256 && i != packet[0] ==> #[trigger] after.history[i] == st.history[i]
        }),
{
}

/// A packet that follows after `k - 1` lost ones counts them as lost; one that comes late
/// counts as late. Neither counts as the other.
pub proof fn losses_and_late_packets_are_counted(
    st: CryptModel,
    iv: Seq<u8>,
    k: nat,
    packet: Seq<u8>,
)
    requires
        packet_taken(st, packet),
        iv.len() == 16,
        packet[0] == iv[0],
    ensures
        ({
            let after = decrypt_step(st, packet).0;
            &&& iv == le_plus(st.decrypt_iv, k) && st.decrypt_iv.len() == 16 && 1 <= k <= 127
                ==> after.decrypt_iv == iv && after.late == st.late && (st.lost + k - 1 <= u32::MAX
                ==> after.lost == st.lost + k - 1)
            &&& st.decrypt_iv == le_plus(iv, k) && 1 <= k <= 29 ==> after.decrypt_iv
                == st.decrypt_iv && after.lost == st.lost && (st.late < u32::MAX ==> after.late
                == st.late + 1)
        }),
{
    if iv == le_plus(st.decrypt_iv, k) && st.decrypt_iv.len() == 16 && 1 <= k <= 127 {
        lemma_le_plus(st.decrypt_iv, k);
        let after = decrypt_step(st, packet).0;
        assert(after.decrypt_iv =~= iv);
    }
    if st.decrypt_iv == le_plus(iv, k) && 1 <= k <= 29 {
        lemma_le_plus(iv, k);
    }
}

} // verus!
