//! Mumble PDS (Packet Data Stream) variable-length integers.
//!
//! The UDP voice payload carries its session id, sequence number and frame
//! lengths in Mumble's own integer encoding, chosen by the leading byte:
//!
//! ```text
//! 0xxxxxxx                          7-bit  value  (1 byte)
//! 10xxxxxx +1                       14-bit value  (2 bytes)
//! 110xxxxx +2                       21-bit value  (3 bytes)
//! 1110xxxx +3                       28-bit value  (4 bytes)
//! 111100__ +4                       32-bit value  (5 bytes)
//! 111101__ +8                       64-bit value  (9 bytes)
//! 111110__ recursive negative       read past, surfaced as 0
//! 111111xx                          small negative (-1..-4)
//! ```
use vstd::prelude::*;

verus! {

/// The big-endian number spelled by `s`.
pub open spec fn be_value(s: Seq<u8>) -> nat
    decreases s.len(),
{
    if s.len() == 0 {
        0
    } else {
        be_value(s.drop_last()) * 256 + s.last() as nat
    }
}

/// The big-endian spelling of `value` in `len` bytes.
pub open spec fn be_bytes(value: nat, len: nat) -> Seq<u8>
    decreases len,
{
    if len == 0 {
        Seq::empty()
    } else {
        be_bytes(value / 256, (len - 1) as nat).push((value % 256) as u8)
    }
}

/// How many bytes follow a leading byte of one of the unsigned forms.
pub open spec fn pds_extra(first: u8) -> nat {
    if first < 0x80 {
        0
    } else if first < 0xC0 {
        1
    } else if first < 0xE0 {
        2
    } else if first < 0xF0 {
        3
    } else if first < 0xF4 {
        4
    } else if first < 0xF8 {
        8
    } else {
        0
    }
}

/// The value bits that the leading byte itself contributes.
pub open spec fn pds_head(first: u8) -> u8 {
    if first < 0x80 {
        first
    } else if first < 0xC0 {
        (first - 0x80) as u8
    } else if first < 0xE0 {
        (first - 0xC0) as u8
    } else if first < 0xF0 {
        (first - 0xE0) as u8
    } else {
        0
    }
}

/// What a stream starting with `s` decodes to: the value and the number of
/// bytes it took, or `None` when the stream ends inside the integer.
pub open spec fn pds_decode(s: Seq<u8>) -> Option<(u64, nat)>
    decreases s.len(),
{
    if s.len() == 0 {
        None
    } else if s[0] < 0xF8 {
        let n = pds_extra(s[0]);
        if s.len() < 1 + n {
            None
        } else {
            let digits = seq![pds_head(s[0])] + s.subrange(1, 1 + n as int);
            Some((be_value(digits) as u64, 1 + n))
        }
    } else if s[0] < 0xFC {
        match pds_decode(s.skip(1)) {
            None => None,
            Some((_, n)) => Some((0u64, 1 + n)),
        }
    } else {
        Some(((u64::MAX - (s[0] - 0xFC)) as u64, 1))
    }
}

/// How many bytes the shortest unsigned form of `value` takes.
pub open spec fn pds_len(value: u64) -> nat {
    if value < 0x80 {
        1
    } else if value < 0x4000 {
        2
    } else if value < 0x20_0000 {
        3
    } else if value < 0x1000_0000 {
        4
    } else if value < 0x1_0000_0000 {
        5
    } else {
        9
    }
}

/// The prefix bits that mark the form of `len` bytes.
pub open spec fn pds_prefix(len: nat) -> nat {
    if len == 1 {
        0
    } else if len == 2 {
        0x80
    } else if len == 3 {
        0xC0
    } else if len == 4 {
        0xE0
    } else if len == 5 {
        0xF0
    } else {
        0xF4
    }
}

/// The shortest unsigned encoding of `value`.
pub open spec fn pds_encode(value: u64) -> Seq<u8> {
    let digits = be_bytes(value as nat, pds_len(value));
    digits.update(0, (pds_prefix(pds_len(value)) + digits[0]) as u8)
}

/// `256` to the power `n`.
spec fn pow256(n: nat) -> nat
    decreases n,
{
    if n == 0 {
        1
    } else {
        256 * pow256((n - 1) as nat)
    }
}

proof fn lemma_pow256()
    ensures
        pow256(0) == 1,
        pow256(1) == 0x100,
        pow256(2) == 0x1_0000,
        pow256(3) == 0x100_0000,
        pow256(4) == 0x1_0000_0000,
        pow256(5) == 0x100_0000_0000,
        pow256(8) == 0x1_0000_0000_0000_0000,
        pow256(9) == 0x100_0000_0000_0000_0000,
{
    reveal_with_fuel(pow256, 10);
}

proof fn lemma_be_value_bound(s: Seq<u8>)
    ensures
        be_value(s) < pow256(s.len()),
    decreases s.len(),
{
    if s.len() > 0 {
        lemma_be_value_bound(s.drop_last());
    }
}

proof fn lemma_be_bytes_len(value: nat, len: nat)
    ensures
        be_bytes(value, len).len() == len,
    decreases len,
{
    if len > 0 {
        lemma_be_bytes_len(value / 256, (len - 1) as nat);
    }
}

proof fn lemma_be_roundtrip(value: nat, len: nat)
    ensures
        be_value(be_bytes(value, len)) == value % pow256(len),
    decreases len,
{
    lemma_be_bytes_len(value, len);
    if len > 0 {
        let m = (len - 1) as nat;
        lemma_be_bytes_len(value / 256, m);
        lemma_be_roundtrip(value / 256, m);
        assert(be_bytes(value, len).drop_last() =~= be_bytes(value / 256, m));
        lemma_pow256_pos(m);
        vstd::arithmetic::div_mod::lemma_mod_breakdown(value as int, 256, pow256(m) as int);
    }
}

proof fn lemma_first_digit(value: nat, len: nat)
    requires
        value < 0x1_0000_0000_0000_0000,
        len > 0,
    ensures
        len == 1 && value < 0x80 ==> be_bytes(value, len)[0] < 0x80,
        len == 2 && value < 0x4000 ==> be_bytes(value, len)[0] < 0x40,
        len == 3 && value < 0x20_0000 ==> be_bytes(value, len)[0] < 0x20,
        len == 4 && value < 0x1000_0000 ==> be_bytes(value, len)[0] < 0x10,
        len == 5 && value < 0x1_0000_0000 ==> be_bytes(value, len)[0] == 0,
        len == 9 ==> be_bytes(value, len)[0] == 0,
{
    reveal_with_fuel(be_bytes, 10);
}

proof fn lemma_pow256_pos(n: nat)
    ensures
        pow256(n) > 0,
    decreases n,
{
    if n > 0 {
        lemma_pow256_pos((n - 1) as nat);
    }
}

/// Reading back what was written gives the value that was written and stops
/// exactly at the end of it, whatever follows in the stream.
pub proof fn pds_roundtrip(value: u64, rest: Seq<u8>)
    ensures
        pds_decode(pds_encode(value) + rest) == Some((value, pds_len(value))),
        pds_encode(value).len() == pds_len(value),
{
    let len = pds_len(value);
    let v = value as nat;
    let digits = be_bytes(v, len);
    let s = pds_encode(value) + rest;
    lemma_pow256();
    lemma_be_bytes_len(v, len);
    lemma_be_roundtrip(v, len);
    lemma_first_digit(v, len);
    assert(s[0] == pds_prefix(len) + digits[0]);
    assert(pds_extra(s[0]) == len - 1);
    assert(pds_head(s[0]) == digits[0]);
    assert(seq![pds_head(s[0])] + s.subrange(1, len as int) =~= digits);
    vstd::arithmetic::div_mod::lemma_small_mod(v, pow256(len));
}

/// No unsigned form that decodes to a value is shorter than the one that is
/// written for it.
pub proof fn pds_minimal(s: Seq<u8>)
    requires
        s.len() > 0,
        s[0] < 0xFC,
        pds_decode(s) is Some,
    ensures
        pds_decode(s).unwrap().1 >= pds_len(pds_decode(s).unwrap().0),
{
    if s[0] < 0xF8 {
        let n = pds_extra(s[0]);
        let digits = seq![pds_head(s[0])] + s.subrange(1, 1 + n as int);
        lemma_pow256();
        lemma_be_value_small(digits);
        lemma_be_value_bound(digits);
        lemma_leading_zero(s.subrange(1, 1 + n as int));
        lemma_be_value_bound(s.subrange(1, 1 + n as int));
    }
}

/// A leading zero digit adds nothing.
proof fn lemma_leading_zero(s: Seq<u8>)
    ensures
        be_value(seq![0u8] + s) == be_value(s),
    decreases s.len(),
{
    if s.len() == 0 {
        assert((seq![0u8] + s).drop_last() =~= s);
    } else {
        lemma_leading_zero(s.drop_last());
        assert((seq![0u8] + s).drop_last() =~= seq![0u8] + s.drop_last());
    }
}

proof fn lemma_lead_bits(v0: u64)
    by (bit_vector)
    requires
        v0 < 256,
    ensures
        (v0 & 0x80 == 0) <==> v0 < 0x80,
        (v0 & 0xC0 == 0x80) <==> (0x80 <= v0 && v0 < 0xC0),
        (v0 & 0xE0 == 0xC0) <==> (0xC0 <= v0 && v0 < 0xE0),
        (v0 & 0xF0 == 0xE0) <==> (0xE0 <= v0 && v0 < 0xF0),
        (v0 & 0xFC == 0xF0) <==> (0xF0 <= v0 && v0 < 0xF4),
        (v0 & 0xFC == 0xF4) <==> (0xF4 <= v0 && v0 < 0xF8),
        (v0 & 0xFC == 0xF8) <==> (0xF8 <= v0 && v0 < 0xFC),
        v0 >= 0xFC ==> (v0 & 0x03) == v0 - 0xFC,
{
}

proof fn lemma_append_byte(v: u64, b: u64)
    by (bit_vector)
    requires
        v < 0x100_0000_0000_0000,
        b < 256,
    ensures
        ((v << 8) | b) == v * 256 + b,
{
}

proof fn lemma_be_value_small(s: Seq<u8>)
    ensures
        s.len() == 0 ==> be_value(s) == 0,
        s.len() == 1 ==> be_value(s) == s[0],
        s.len() == 2 ==> be_value(s) == s[0] * 256 + s[1],
        s.len() == 3 ==> be_value(s) == s[0] * 0x1_0000 + s[1] * 256 + s[2],
        s.len() == 4 ==> be_value(s) == s[0] * 0x100_0000 + s[1] * 0x1_0000 + s[2] * 256 + s[3],
{
    reveal_with_fuel(be_value, 5);
}

/// Reader over a PDS-encoded byte slice.
pub struct PdsReader<'a> {
    buf: &'a [u8],
    pos: usize,
}

impl<'a> PdsReader<'a> {
    /// The whole stream under the reader.
    pub closed spec fn bytes(self) -> Seq<u8> {
        self.buf@
    }

    /// How many bytes have been consumed.
    pub closed spec fn consumed(self) -> nat {
        self.pos as nat
    }

    /// The reader never stands past the end of its stream.
    pub open spec fn wf(self) -> bool {
        self.consumed() <= self.bytes().len()
    }

    /// The bytes that are still unread.
    pub open spec fn rest(self) -> Seq<u8> {
        self.bytes().skip(self.consumed() as int)
    }

    pub fn new(buf: &'a [u8]) -> (reader: Self)
        ensures
            reader.wf(),
            reader.bytes() == buf@,
            reader.consumed() == 0,
    {
        Self { buf, pos: 0 }
    }

    /// Bytes consumed so far.
    pub fn offset(&self) -> (n: usize)
        ensures
            n == self.consumed(),
    {
        self.pos
    }

    /// Bytes still unread (for instance the trailing positional block).
    pub fn remaining(&self) -> (tail: &'a [u8])
        requires
            self.wf(),
        ensures
            tail@ == self.rest(),
    {
        vstd::slice::slice_subrange(self.buf, self.pos, self.buf.len())
    }

    fn next_byte(&mut self) -> (byte: Option<u8>)
        requires
            old(self).wf(),
        ensures
            final(self).wf(),
            final(self).bytes() == old(self).bytes(),
            match byte {
                Some(b) => old(self).consumed() < old(self).bytes().len()
                    && b == old(self).bytes()[old(self).consumed() as int]
                    && final(self).consumed() == old(self).consumed() + 1,
                None => old(self).consumed() == old(self).bytes().len()
                    && final(self).consumed() == old(self).consumed(),
            },
    {
        if self.pos < self.buf.len() {
            let b = self.buf[self.pos];
            self.pos = self.pos + 1;
            Some(b)
        } else {
            None
        }
    }

    /// Consume one raw byte (opaque codec-frame data), failing on truncation.
    /// Distinct from [`read_u64`](Self::read_u64), which decodes a varint.
    pub fn read_raw_byte(&mut self) -> (byte: Option<u8>)
        requires
            old(self).wf(),
        ensures
            final(self).wf(),
            final(self).bytes() == old(self).bytes(),
            match byte {
                Some(b) => old(self).rest().len() > 0 && b == old(self).rest()[0]
                    && final(self).consumed() == old(self).consumed() + 1,
                None => old(self).rest().len() == 0 && final(self).consumed() == old(
                    self,
                ).consumed(),
            },
    {
        self.next_byte()
    }

    /// Read `count` bytes as one big-endian number.
    fn read_be(&mut self, count: usize) -> (value: Option<u64>)
        requires
            old(self).wf(),
            count <= 8,
        ensures
            final(self).wf(),
            final(self).bytes() == old(self).bytes(),
            match value {
                Some(v) => old(self).rest().len() >= count && v == be_value(
                    old(self).rest().take(count as int),
                ) && final(self).consumed() == old(self).consumed() + count,
                None => old(self).rest().len() < count && final(self).consumed() == old(
                    self,
                ).bytes().len(),
            },
    {
        let mut v: u64 = 0;
        let mut i: usize = 0;
        let ghost start = old(self).consumed() as int;
        let ghost rest = old(self).rest();
        while i < count
            invariant
                self.wf(),
                self.bytes() == old(self).bytes(),
                old(self).wf(),
                start == old(self).consumed(),
                rest == old(self).rest(),
                self.consumed() == start + i,
                i <= count <= 8,
                i <= rest.len(),
                v == be_value(rest.take(i as int)),
            decreases count - i,
        {
            match self.next_byte() {
                Some(b) => {
                    proof {
                        let s = rest.take(i + 1);
                        assert(s.drop_last() =~= rest.take(i as int));
                        assert(s.last() == b);
                        lemma_be_value_bound(rest.take(i as int));
                        lemma_pow_mono(i as nat, 7);
                        assert(pow256(7) == 0x100_0000_0000_0000) by {
                            reveal_with_fuel(pow256, 8);
                        }
                        lemma_append_byte(v, b as u64);
                    }
                    v = (v << 8) | b as u64;
                    i = i + 1;
                },
                None => {
                    return None;
                },
            }
        }
        Some(v)
    }

    /// Decode one unsigned varint. Returns `None` on truncation, and then the
    /// stream has been read to its end.
    pub fn read_u64(&mut self) -> (value: Option<u64>)
        requires
            old(self).wf(),
        ensures
            final(self).wf(),
            final(self).bytes() == old(self).bytes(),
            match pds_decode(old(self).rest()) {
                Some((v, n)) => value == Some(v) && final(self).consumed() == old(self).consumed()
                    + n,
                None => value is None && final(self).consumed() == old(self).bytes().len(),
            },
        decreases old(self).rest().len(),
    {
        let ghost s = old(self).rest();
        proof {
            lemma_pow256();
        }
        let v0: u64 = match self.next_byte() {
            Some(b) => b as u64,
            None => {
                return None;
            },
        };
        let ghost tail = self.rest();
        proof {
            lemma_lead_bits(v0);
            assert(s[0] == v0);
            assert(tail =~= s.skip(1));
            let n = pds_extra(s[0]) as int;
            if s.len() >= 1 + n {
                let low = tail.take(n);
                assert(s.subrange(1, 1 + n) =~= low);
                lemma_be_value_small(low);
                lemma_be_value_small(seq![pds_head(s[0])] + low);
                lemma_leading_zero(low);
                lemma_be_value_bound(low);
            }
        }
        // 0xxxxxxx
        if v0 & 0x80 == 0 {
            return Some(v0);
        }
        // 10xxxxxx + 1
        if v0 & 0xC0 == 0x80 {
            return match self.read_be(1) {
                Some(low) => {
                    proof {
                        lemma_head8(v0, low);
                    }
                    Some(((v0 & 0x3F) << 8) | low)
                },
                None => None,
            };
        }
        // 110xxxxx + 2
        if v0 & 0xE0 == 0xC0 {
            return match self.read_be(2) {
                Some(low) => {
                    proof {
                        lemma_head16(v0, low);
                    }
                    Some(((v0 & 0x1F) << 16) | low)
                },
                None => None,
            };
        }
        // 1110xxxx + 3
        if v0 & 0xF0 == 0xE0 {
            return match self.read_be(3) {
                Some(low) => {
                    proof {
                        lemma_head24(v0, low);
                    }
                    Some(((v0 & 0x0F) << 24) | low)
                },
                None => None,
            };
        }
        // 111100__ full 32-bit
        if v0 & 0xFC == 0xF0 {
            return self.read_be(4);
        }
        // 111101__ full 64-bit
        if v0 & 0xFC == 0xF4 {
            return self.read_be(8);
        }
        // 111110__ recursive negative: read and discard the magnitude so the
        // stream stays aligned; callers treat the value as unsigned, so it
        // surfaces as 0.
        if v0 & 0xFC == 0xF8 {
            return match self.read_u64() {
                Some(_) => Some(0),
                None => None,
            };
        }
        // 111111xx small negative (-1..-4): 2 low bits, no extra bytes.
        Some(u64::MAX - (v0 & 0x03))
    }

    /// Convenience for the common u32-range fields (session, sequence).
    pub fn read_u32(&mut self) -> (value: Option<u32>)
        requires
            old(self).wf(),
        ensures
            final(self).wf(),
            final(self).bytes() == old(self).bytes(),
            match pds_decode(old(self).rest()) {
                Some((v, n)) => value == Some((v % 0x1_0000_0000) as u32)
                    && final(self).consumed() == old(self).consumed() + n,
                None => value is None && final(self).consumed() == old(self).bytes().len(),
            },
    {
        match self.read_u64() {
            Some(v) => {
                proof {
                    lemma_low_u32(v);
                }
                Some(v as u32)
            },
            None => None,
        }
    }
}

proof fn lemma_low_u32(v: u64)
    by (bit_vector)
    ensures
        v as u32 == v % 0x1_0000_0000,
{
}

proof fn lemma_head8(v0: u64, low: u64)
    by (bit_vector)
    requires
        0x80 <= v0,
        v0 < 0xC0,
        low < 0x100,
    ensures
        (((v0 & 0x3F) << 8) | low) == (v0 - 0x80) * 0x100 + low,
{
}

proof fn lemma_head16(v0: u64, low: u64)
    by (bit_vector)
    requires
        0xC0 <= v0,
        v0 < 0xE0,
        low < 0x1_0000,
    ensures
        (((v0 & 0x1F) << 16) | low) == (v0 - 0xC0) * 0x1_0000 + low,
{
}

proof fn lemma_head24(v0: u64, low: u64)
    by (bit_vector)
    requires
        0xE0 <= v0,
        v0 < 0xF0,
        low < 0x100_0000,
    ensures
        (((v0 & 0x0F) << 24) | low) == (v0 - 0xE0) * 0x100_0000 + low,
{
}

proof fn lemma_pow_mono(a: nat, b: nat)
    requires
        a <= b,
    ensures
        pow256(a) <= pow256(b),
    decreases b,
{
    if a < b {
        lemma_pow_mono(a, (b - 1) as nat);
    }
}

proof fn lemma_shift_bytes(v: u64)
    by (bit_vector)
    ensures
        (v >> 8) == v / 0x100,
        (v >> 16) == v / 0x1_0000,
        (v >> 24) == v / 0x100_0000,
        v as u8 == v % 0x100,
{
}

proof fn lemma_lead_or(b: u8)
    by (bit_vector)
    ensures
        b < 0x40 ==> (0x80 | b) == 0x80 + b,
        b < 0x20 ==> (0xC0 | b) == 0xC0 + b,
        b < 0x10 ==> (0xE0 | b) == 0xE0 + b,
{
}

/// Adding a byte on the left leaves the others as they are.
proof fn lemma_digits(v: nat)
    ensures
        be_bytes(v, 1) =~= seq![(v % 256) as u8] + be_bytes(v, 0),
        be_bytes(v, 2) =~= seq![(v / 0x100 % 256) as u8] + be_bytes(v, 1),
        be_bytes(v, 3) =~= seq![(v / 0x1_0000 % 256) as u8] + be_bytes(v, 2),
        be_bytes(v, 4) =~= seq![(v / 0x100_0000 % 256) as u8] + be_bytes(v, 3),
        be_bytes(v, 5) =~= seq![(v / 0x1_0000_0000 % 256) as u8] + be_bytes(v, 4),
        be_bytes(v, 9) =~= seq![be_bytes(v, 9)[0]] + be_bytes(v, 8),
{
    reveal_with_fuel(be_bytes, 10);
}

/// Append `len` big-endian bytes of `value`.
fn push_be(out: &mut Vec<u8>, value: u64, len: usize)
    requires
        len <= 8,
    ensures
        final(out)@ == old(out)@ + be_bytes(value as nat, len as nat),
    decreases len,
{
    proof {
        lemma_shift_bytes(value);
    }
    if len > 0 {
        push_be(out, value >> 8, len - 1);
        out.push(value as u8);
    }
    assert(out@ =~= old(out)@ + be_bytes(value as nat, len as nat));
}

/// Append an unsigned varint to `out` using the minimal PDS encoding.
pub fn write_u64(out: &mut Vec<u8>, value: u64)
    ensures
        final(out)@ == old(out)@ + pds_encode(value),
{
    proof {
        lemma_shift_bytes(value);
        lemma_shift_bytes(value >> 8);
        lemma_shift_bytes(value >> 16);
        lemma_shift_bytes(value >> 24);
        lemma_lead_or((value >> 8) as u8);
        lemma_lead_or((value >> 16) as u8);
        lemma_lead_or((value >> 24) as u8);
        lemma_first_digit(value as nat, pds_len(value));
        lemma_be_bytes_len(value as nat, pds_len(value));
        lemma_digits(value as nat);
    }
    if value < 0x80 {
        out.push(value as u8);
    } else if value < 0x4000 {
        out.push(0x80 | (value >> 8) as u8);
        push_be(out, value, 1);
    } else if value < 0x20_0000 {
        out.push(0xC0 | (value >> 16) as u8);
        push_be(out, value, 2);
    } else if value < 0x1000_0000 {
        out.push(0xE0 | (value >> 24) as u8);
        push_be(out, value, 3);
    } else if value < 0x1_0000_0000 {
        out.push(0xF0);
        push_be(out, value, 4);
    } else {
        out.push(0xF4);
        push_be(out, value, 8);
    }
    assert(out@ =~= old(out)@ + pds_encode(value));
}

} // verus!
