//! Binary field layouts of relay packets.
//!
//! Integers are little-endian; a string field is a `u16` byte count followed by
//! that many UTF-8 bytes; floating-point fields travel as the little-endian
//! bytes of their IEEE-754 bit pattern, which the relay forwards unchanged.
//!
//! [`PacketWriter`] appends fields to a growing buffer. [`PacketReader`]
//! consumes them from the front of a payload; a read that finds too few bytes
//! yields zero (or `None`, or the bytes that are left) and leaves nothing to
//! read behind it.
use vstd::prelude::*;
use vstd::utf8::{decode_utf8, encode_utf8, encode_utf8_decode_utf8, encode_utf8_valid_utf8, valid_utf8};

verus! {

// ── Encodings ───────────────────────────────────────────────────────────────

/// Little-endian bytes of a `u16`.
pub open spec fn le16(v: u16) -> Seq<u8> {
    seq![(v % 256) as u8, (v / 256) as u8]
}

/// Little-endian bytes of a `u32`.
pub open spec fn le32(v: u32) -> Seq<u8> {
    seq![(v % 256) as u8, ((v / 256) % 256) as u8, ((v / 65536) % 256) as u8, (v / 16777216) as u8]
}

/// Little-endian bytes of a `u64`.
pub open spec fn le64(v: u64) -> Seq<u8> {
    le32((v % 0x1_0000_0000) as u32) + le32((v / 0x1_0000_0000) as u32)
}

/// The value of two little-endian bytes.
pub open spec fn from_le16(b: Seq<u8>) -> u16 {
    (b[0] + 256 * b[1]) as u16
}

/// The value of four little-endian bytes.
pub open spec fn from_le32(b: Seq<u8>) -> u32 {
    (b[0] + 256 * b[1] + 65536 * b[2] + 16777216 * b[3]) as u32
}

/// The value of eight little-endian bytes.
pub open spec fn from_le64(b: Seq<u8>) -> u64 {
    (from_le32(b.subrange(0, 4)) + 0x1_0000_0000 * from_le32(b.subrange(4, 8))) as u64
}

/// The number of bytes of `bytes` that a string field carries.
pub open spec fn string_field_len(bytes: Seq<u8>) -> nat {
    if bytes.len() <= 65535 {
        bytes.len()
    } else {
        65535
    }
}

/// A string field holding the UTF-8 bytes `bytes` (cut at 65535 bytes).
pub open spec fn string_field_bytes(bytes: Seq<u8>) -> Seq<u8> {
    le16(string_field_len(bytes) as u16) + bytes.take(string_field_len(bytes) as int)
}

/// A string field holding the characters `chars`.
pub open spec fn string_field(chars: Seq<char>) -> Seq<u8> {
    string_field_bytes(encode_utf8(chars))
}

// ── Consuming fields (what a reader does to the bytes left) ────────────────

/// A `u8` and the bytes after it.
pub open spec fn take_u8(s: Seq<u8>) -> (u8, Seq<u8>) {
    if s.len() >= 1 {
        (s[0], s.skip(1))
    } else {
        (0, Seq::empty())
    }
}

/// A little-endian `u16` and the bytes after it.
pub open spec fn take_u16(s: Seq<u8>) -> (u16, Seq<u8>) {
    if s.len() >= 2 {
        (from_le16(s), s.skip(2))
    } else {
        (0, Seq::empty())
    }
}

/// A little-endian `u32` and the bytes after it.
pub open spec fn take_u32(s: Seq<u8>) -> (u32, Seq<u8>) {
    if s.len() >= 4 {
        (from_le32(s), s.skip(4))
    } else {
        (0, Seq::empty())
    }
}

/// A little-endian `u64` and the bytes after it.
pub open spec fn take_u64(s: Seq<u8>) -> (u64, Seq<u8>) {
    if s.len() >= 8 {
        (from_le64(s), s.skip(8))
    } else {
        (0, Seq::empty())
    }
}

/// A little-endian two's-complement `i32` and the bytes after it.
pub open spec fn take_i32(s: Seq<u8>) -> (i32, Seq<u8>) {
    (take_u32(s).0 as i32, take_u32(s).1)
}

/// A little-endian two's-complement `i64` and the bytes after it.
pub open spec fn take_i64(s: Seq<u8>) -> (i64, Seq<u8>) {
    (take_u64(s).0 as i64, take_u64(s).1)
}

/// Up to `n` bytes and the bytes after them.
pub open spec fn take_bytes(s: Seq<u8>, n: nat) -> (Seq<u8>, Seq<u8>) {
    if n <= s.len() {
        (s.take(n as int), s.skip(n as int))
    } else {
        (s, Seq::empty())
    }
}

/// A string field and the bytes after it: `None` when the field is cut short
/// or its bytes are not UTF-8.
pub open spec fn take_string(s: Seq<u8>) -> (Option<Seq<char>>, Seq<u8>) {
    if s.len() < 2 {
        (None, Seq::empty())
    } else {
        let n = from_le16(s);
        let rest = s.skip(2);
        if rest.len() < n {
            (None, Seq::empty())
        } else {
            let bytes = rest.take(n as int);
            (if valid_utf8(bytes) { Some(decode_utf8(bytes)) } else { None }, rest.skip(n as int))
        }
    }
}

// ── Writer ──────────────────────────────────────────────────────────────────

/// Builds a packet payload field by field.
pub struct PacketWriter {
    buf: Vec<u8>,
}

impl View for PacketWriter {
    type V = Seq<u8>;

    closed spec fn view(&self) -> Seq<u8> {
        self.buf@
    }
}

fn u16_bytes(v: u16) -> (r: (u8, u8))
    ensures
        seq![r.0, r.1] == le16(v),
{
    ((v % 256) as u8, (v / 256) as u8)
}

fn u32_bytes(v: u32) -> (r: (u8, u8, u8, u8))
    ensures
        seq![r.0, r.1, r.2, r.3] == le32(v),
{
    ((v % 256) as u8, ((v / 256) % 256) as u8, ((v / 65536) % 256) as u8, (v / 16777216) as u8)
}

impl PacketWriter {
    /// An empty payload.
    pub fn new() -> (w: Self)
        ensures
            w@ == Seq::<u8>::empty(),
    {
        PacketWriter { buf: Vec::new() }
    }

    /// Appends one byte.
    pub fn write_u8(&mut self, v: u8)
        ensures
            final(self)@ == old(self)@.push(v),
    {
        self.buf.push(v);
    }

    /// Appends a little-endian `u16`.
    pub fn write_u16(&mut self, v: u16)
        ensures
            final(self)@ == old(self)@ + le16(v),
    {
        let (a, b) = u16_bytes(v);
        self.buf.push(a);
        self.buf.push(b);
        assert(self.buf@ =~= old(self)@ + seq![a, b]);
    }

    /// Appends a little-endian `u32`.
    pub fn write_u32(&mut self, v: u32)
        ensures
            final(self)@ == old(self)@ + le32(v),
    {
        let (a, b, c, d) = u32_bytes(v);
        self.buf.push(a);
        self.buf.push(b);
        self.buf.push(c);
        self.buf.push(d);
        assert(self.buf@ =~= old(self)@ + seq![a, b, c, d]);
    }

    /// Appends a little-endian `u64`.
    pub fn write_u64(&mut self, v: u64)
        ensures
            final(self)@ == old(self)@ + le64(v),
    {
        self.write_u32((v % 0x1_0000_0000) as u32);
        self.write_u32((v / 0x1_0000_0000) as u32);
        assert(self@ =~= old(self)@ + le64(v));
    }

    /// Appends a little-endian two's-complement `i32`.
    pub fn write_i32(&mut self, v: i32)
        ensures
            final(self)@ == old(self)@ + le32(v as u32),
    {
        self.write_u32(v as u32);
    }

    /// Appends a little-endian two's-complement `i64`.
    pub fn write_i64(&mut self, v: i64)
        ensures
            final(self)@ == old(self)@ + le64(v as u64),
    {
        self.write_u64(v as u64);
    }

    /// Appends raw bytes.
    pub fn write_bytes(&mut self, bytes: &[u8])
        ensures
            final(self)@ == old(self)@ + bytes@,
    {
        let mut i: usize = 0;
        while i < bytes.len()
            invariant
                i <= bytes@.len(),
                self.buf@ == old(self)@ + bytes@.take(i as int),
            decreases bytes@.len() - i,
        {
            self.buf.push(bytes[i]);
            i = i + 1;
            assert(self.buf@ =~= old(self)@ + bytes@.take(i as int));
        }
        assert(bytes@.take(i as int) =~= bytes@);
    }

    /// Appends a string field: its byte count as `u16`, then its UTF-8 bytes
    /// (a string longer than 65535 bytes is cut there).
    pub fn write_string(&mut self, s: &str)
        ensures
            final(self)@ == old(self)@ + string_field(s@),
    {
        let bytes = s.as_bytes();
        let n: usize = if bytes.len() <= 65535 {
            bytes.len()
        } else {
            65535
        };
        self.write_u16(n as u16);
        let mut i: usize = 0;
        while i < n
            invariant
                n <= bytes@.len(),
                n == string_field_len(bytes@),
                i <= n,
                self.buf@ == old(self)@ + le16(n as u16) + bytes@.take(i as int),
            decreases n - i,
        {
            self.buf.push(bytes[i]);
            i = i + 1;
            assert(self.buf@ =~= old(self)@ + le16(n as u16) + bytes@.take(i as int));
        }
        assert(self.buf@ =~= old(self)@ + string_field(s@));
    }

    /// The bytes written so far.
    pub fn finish(self) -> (bytes: Vec<u8>)
        ensures
            bytes@ == self@,
    {
        self.buf
    }
}

// ── Reader ──────────────────────────────────────────────────────────────────

/// Reads fields from the front of a payload.
pub struct PacketReader {
    data: Vec<u8>,
    pos: usize,
}

impl View for PacketReader {
    type V = Seq<u8>;

    /// The bytes not read yet.
    closed spec fn view(&self) -> Seq<u8> {
        self.data@.skip(self.pos as int)
    }
}

impl PacketReader {
    /// Whether the reader's position lies within its payload.
    pub closed spec fn wf(&self) -> bool {
        self.pos <= self.data@.len()
    }

    /// A reader over the whole of `data`.
    pub fn new(data: Vec<u8>) -> (r: Self)
        ensures
            r.wf(),
            r@ == data@,
    {
        let r = PacketReader { data, pos: 0 };
        assert(r.data@.skip(0) =~= r.data@);
        r
    }

    /// The number of bytes not read yet.
    pub fn remaining(&self) -> (n: usize)
        requires
            self.wf(),
        ensures
            n == self@.len(),
    {
        self.data.len() - self.pos
    }

    fn skip_to_end(&mut self)
        requires
            old(self).wf(),
        ensures
            final(self).wf(),
            final(self)@ == Seq::<u8>::empty(),
    {
        self.pos = self.data.len();
        assert(self@ =~= Seq::<u8>::empty());
    }

    /// Reads one byte.
    pub fn read_u8(&mut self) -> (v: u8)
        requires
            old(self).wf(),
        ensures
            final(self).wf(),
            (v, final(self)@) == take_u8(old(self)@),
    {
        if self.data.len() - self.pos >= 1 {
            let v = self.data[self.pos];
            self.pos = self.pos + 1;
            assert(self@ =~= old(self)@.skip(1));
            v
        } else {
            self.skip_to_end();
            0
        }
    }

    /// Reads a little-endian `u16`.
    pub fn read_u16(&mut self) -> (v: u16)
        requires
            old(self).wf(),
        ensures
            final(self).wf(),
            (v, final(self)@) == take_u16(old(self)@),
    {
        if self.data.len() - self.pos >= 2 {
            let a = self.data[self.pos] as u16;
            let b = self.data[self.pos + 1] as u16;
            self.pos = self.pos + 2;
            assert(self@ =~= old(self)@.skip(2));
            a + 256 * b
        } else {
            self.skip_to_end();
            0
        }
    }

    /// Reads a little-endian `u32`.
    pub fn read_u32(&mut self) -> (v: u32)
        requires
            old(self).wf(),
        ensures
            final(self).wf(),
            (v, final(self)@) == take_u32(old(self)@),
    {
        if self.data.len() - self.pos >= 4 {
            let a = self.data[self.pos] as u32;
            let b = self.data[self.pos + 1] as u32;
            let c = self.data[self.pos + 2] as u32;
            let d = self.data[self.pos + 3] as u32;
            self.pos = self.pos + 4;
            assert(self@ =~= old(self)@.skip(4));
            a + 256 * b + 65536 * c + 16777216 * d
        } else {
            self.skip_to_end();
            0
        }
    }

    /// Reads a little-endian `u64`.
    pub fn read_u64(&mut self) -> (v: u64)
        requires
            old(self).wf(),
        ensures
            final(self).wf(),
            (v, final(self)@) == take_u64(old(self)@),
    {
        if self.data.len() - self.pos >= 8 {
            let ghost s = old(self)@;
            let lo = self.read_u32();
            let hi = self.read_u32();
            assert(s.subrange(0, 4) =~= s.take(4));
            assert(s.skip(4).take(4) =~= s.subrange(4, 8));
            assert(s.skip(4).skip(4) =~= s.skip(8));
            lo as u64 + 0x1_0000_0000 * (hi as u64)
        } else {
            self.skip_to_end();
            0
        }
    }

    /// Reads a little-endian two's-complement `i32`.
    pub fn read_i32(&mut self) -> (v: i32)
        requires
            old(self).wf(),
        ensures
            final(self).wf(),
            (v, final(self)@) == take_i32(old(self)@),
    {
        self.read_u32() as i32
    }

    /// Reads a little-endian two's-complement `i64`.
    pub fn read_i64(&mut self) -> (v: i64)
        requires
            old(self).wf(),
        ensures
            final(self).wf(),
            (v, final(self)@) == take_i64(old(self)@),
    {
        self.read_u64() as i64
    }

    /// Reads `n` bytes, or whatever is left when fewer remain.
    pub fn read_bytes(&mut self, n: usize) -> (bytes: Vec<u8>)
        requires
            old(self).wf(),
        ensures
            final(self).wf(),
            (bytes@, final(self)@) == take_bytes(old(self)@, n as nat),
    {
        let avail = self.data.len() - self.pos;
        assert(self.data@.len() <= usize::MAX);
        let k = if n <= avail {
            n
        } else {
            avail
        };
        let mut out: Vec<u8> = Vec::new();
        let mut i: usize = 0;
        while i < k
            invariant
                self.wf(),
                *self == *old(self),
                k <= avail == self.data@.len() - self.pos,
                self.pos + k <= self.data@.len() <= usize::MAX,
                i <= k,
                out@ == self@.take(i as int),
            decreases k - i,
        {
            out.push(self.data[self.pos + i]);
            i = i + 1;
            assert(out@ =~= self@.take(i as int));
        }
        self.pos = self.pos + k;
        assert(self@ =~= old(self)@.skip(k as int));
        proof {
            if k == avail {
                assert(old(self)@.take(k as int) =~= old(self)@);
            }
        }
        out
    }

    /// Reads a string field; `None` when it is cut short or is not UTF-8.
    pub fn read_string(&mut self) -> (s: Option<String>)
        requires
            old(self).wf(),
        ensures
            final(self).wf(),
            (match s {
                Some(t) => Some(t@),
                None => None::<Seq<char>>,
            }, final(self)@) == take_string(old(self)@),
    {
        if self.data.len() - self.pos < 2 {
            self.skip_to_end();
            return None;
        }
        let n = self.read_u16();
        if (self.data.len() - self.pos) < n as usize {
            self.skip_to_end();
            return None;
        }
        let ghost rest = self@;
        let bytes = self.read_bytes(n as usize);
        decode_string(&bytes)
    }
}

/// Decodes UTF-8 bytes into a `String`.
///
/// Calls `String::from_utf8` (std): `Ok` exactly when the bytes are valid
/// UTF-8, and then the string holds the characters those bytes encode.
#[verifier::external_body]
fn decode_string(bytes: &Vec<u8>) -> (s: Option<String>)
    ensures
        s is Some <==> valid_utf8(bytes@),
        s matches Some(t) ==> t@ == decode_utf8(bytes@),
{
    String::from_utf8(bytes.clone()).ok()
}


// ── Laws: a reader gives back what a writer wrote ──────────────────────────

/// Reading a `u8` from a field written for `v` gives `v` back and leaves what followed.
pub proof fn lemma_u8_roundtrip(v: u8, rest: Seq<u8>)
    ensures
        take_u8(seq![v] + rest) == (v, rest),
{
    assert((seq![v] + rest).skip(1) =~= rest);
}

/// Reading a `u16` from the bytes `le16(v)` gives `v` back and leaves what followed.
pub proof fn lemma_u16_roundtrip(v: u16, rest: Seq<u8>)
    ensures
        take_u16(le16(v) + rest) == (v, rest),
{
    let s = le16(v) + rest;
    assert(s[0] == (v % 256) as u8 && s[1] == (v / 256) as u8);
    assert(s.skip(2) =~= rest);
}

/// Reading a `u32` from the bytes `le32(v)` gives `v` back and leaves what followed.
pub proof fn lemma_u32_roundtrip(v: u32, rest: Seq<u8>)
    ensures
        take_u32(le32(v) + rest) == (v, rest),
{
    let s = le32(v) + rest;
    assert(s[0] == (v % 256) as u8);
    assert(s[1] == ((v / 256) % 256) as u8);
    assert(s[2] == ((v / 65536) % 256) as u8);
    assert(s[3] == (v / 16777216) as u8);
    assert(s.skip(4) =~= rest);
}

/// Reading a `u64` from the bytes `le64(v)` gives `v` back and leaves what followed.
pub proof fn lemma_u64_roundtrip(v: u64, rest: Seq<u8>)
    ensures
        take_u64(le64(v) + rest) == (v, rest),
{
    let lo = (v % 0x1_0000_0000) as u32;
    let hi = (v / 0x1_0000_0000) as u32;
    let s = le64(v) + rest;
    lemma_u32_roundtrip(lo, Seq::empty());
    lemma_u32_roundtrip(hi, Seq::empty());
    assert(le32(lo) + Seq::<u8>::empty() =~= le32(lo));
    assert(le32(hi) + Seq::<u8>::empty() =~= le32(hi));
    assert(s.subrange(0, 4) =~= le32(lo));
    assert(s.subrange(4, 8) =~= le32(hi));
    assert(s.skip(8) =~= rest);
}

/// Reading an `i32` back from the bytes written for it gives the same value.
pub proof fn lemma_i32_roundtrip(v: i32, rest: Seq<u8>)
    ensures
        take_i32(le32(v as u32) + rest) == (v, rest),
{
    lemma_u32_roundtrip(v as u32, rest);
    assert((v as u32) as i32 == v) by (bit_vector);
}

/// Reading an `i64` back from the bytes written for it gives the same value.
pub proof fn lemma_i64_roundtrip(v: i64, rest: Seq<u8>)
    ensures
        take_i64(le64(v as u64) + rest) == (v, rest),
{
    lemma_u64_roundtrip(v as u64, rest);
    assert((v as u64) as i64 == v) by (bit_vector);
}

/// Reading a string field written for `chars` gives `chars` back and leaves
/// what followed, when the string fits in a field (65535 UTF-8 bytes).
pub proof fn lemma_string_roundtrip(chars: Seq<char>, rest: Seq<u8>)
    requires
        encode_utf8(chars).len() <= 65535,
    ensures
        take_string(string_field(chars) + rest) == (Some(chars), rest),
{
    let bytes = encode_utf8(chars);
    let n = bytes.len() as u16;
    let s = string_field(chars) + rest;
    assert(bytes.take(bytes.len() as int) =~= bytes);
    assert(s =~= le16(n) + (bytes + rest));
    lemma_u16_roundtrip(n, bytes + rest);
    assert(s.skip(2) =~= bytes + rest);
    assert((bytes + rest).take(n as int) =~= bytes);
    assert((bytes + rest).skip(n as int) =~= rest);
    encode_utf8_valid_utf8(chars);
    encode_utf8_decode_utf8(chars);
}

} // verus!
