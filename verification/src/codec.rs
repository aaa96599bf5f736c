//! Fixed-width binary fields, as `sysctl -b` prints them.
//!
//! A batch of sysctl values arrives as the concatenation of the fields'
//! machine representations. Every field is an unsigned integer of four or
//! eight bytes, and one byte order holds for the whole stream.
//!
//! Nothing in the stream marks where a field ends, so a reader has to know
//! the widths in advance. A value of variable length (the per-CPU tick
//! array) must therefore be requested last: placed earlier, every field
//! behind it would be read at the wrong offset without any error.

use vstd::prelude::*;

verus! {

/// Byte order of the router's CPU.
#[derive(Clone, Copy, Debug, PartialEq, Eq, Structural)]
pub enum Endianness {
    Big,
    Little,
}

/// Width of one field of a batch.
#[derive(Clone, Copy, Debug, PartialEq, Eq, Structural)]
pub enum Width {
    /// The router's `unsigned int`.
    Four,
    /// The router's `unsigned long`.
    Eight,
}

/// One decoded field.
#[derive(Clone, Copy, Debug, PartialEq, Eq, Structural)]
pub enum Field {
    U32(u32),
    U64(u64),
}

/// Why a batch could not be decoded.
#[derive(Clone, Copy, Debug, PartialEq, Eq, Structural)]
pub enum CodecError {
    /// The stream ended inside a field.
    UnexpectedEof,
}

/// The number that the bytes denote, most significant byte first.
pub open spec fn be_value(bytes: Seq<u8>) -> nat
    decreases bytes.len(),
{
    if bytes.len() == 0 {
        0
    } else {
        be_value(bytes.drop_last()) * 256 + bytes.last() as nat
    }
}

/// The number that the bytes denote under the byte order `e`.
pub open spec fn value_of(e: Endianness, bytes: Seq<u8>) -> nat {
    match e {
        Endianness::Big => be_value(bytes),
        Endianness::Little => be_value(bytes.reverse()),
    }
}

/// The lowest `n` bytes of `v`, most significant first.
pub open spec fn be_bytes(v: nat, n: nat) -> Seq<u8>
    decreases n,
{
    if n == 0 {
        Seq::empty()
    } else {
        be_bytes(v / 256, (n - 1) as nat).push((v % 256) as u8)
    }
}

/// The `n` bytes that stand for `v` under the byte order `e`.
pub open spec fn bytes_of(e: Endianness, v: nat, n: nat) -> Seq<u8> {
    match e {
        Endianness::Big => be_bytes(v, n),
        Endianness::Little => be_bytes(v, n).reverse(),
    }
}

/// 256 to the power `n`: the first number that `n` bytes cannot hold.
pub open spec fn radix_pow(n: nat) -> nat
    decreases n,
{
    if n == 0 {
        1
    } else {
        256 * radix_pow((n - 1) as nat)
    }
}

/// The number of four bytes at offset `at` of a stream.
pub open spec fn u32_at(e: Endianness, bytes: Seq<u8>, at: int) -> u32 {
    value_of(e, bytes.subrange(at, at + 4)) as u32
}

/// The number of eight bytes at offset `at` of a stream.
pub open spec fn u64_at(e: Endianness, bytes: Seq<u8>, at: int) -> u64 {
    value_of(e, bytes.subrange(at, at + 8)) as u64
}

impl Width {
    /// Number of bytes of a field of this width.
    pub open spec fn len(self) -> nat {
        match self {
            Width::Four => 4,
            Width::Eight => 8,
        }
    }
}

impl Field {
    /// The number a field holds.
    pub open spec fn value(self) -> nat {
        match self {
            Field::U32(v) => v as nat,
            Field::U64(v) => v as nat,
        }
    }

    /// The width a field is written with.
    pub open spec fn width(self) -> Width {
        match self {
            Field::U32(_) => Width::Four,
            Field::U64(_) => Width::Eight,
        }
    }

    /// The field of width `w` that holds `v`.
    pub open spec fn of(w: Width, v: nat) -> Field {
        match w {
            Width::Four => Field::U32(v as u32),
            Width::Eight => Field::U64(v as u64),
        }
    }
}

/// A number written in `n` bytes takes `n` bytes.
pub proof fn lemma_be_bytes_len(v: nat, n: nat)
    ensures
        be_bytes(v, n).len() == n,
    decreases n,
{
    if n > 0 {
        lemma_be_bytes_len(v / 256, (n - 1) as nat);
    }
}

/// Writing a number that fits in `n` bytes and reading the bytes back
/// yields the number.
pub proof fn lemma_be_round_trip(v: nat, n: nat)
    requires
        v < radix_pow(n),
    ensures
        be_value(be_bytes(v, n)) == v,
    decreases n,
{
    if n > 0 {
        let all = be_bytes(v, n);
        assert(all.drop_last() =~= be_bytes(v / 256, (n - 1) as nat));
        lemma_be_round_trip(v / 256, (n - 1) as nat);
    }
}

/// Bytes denote a number that fits in as many bytes, and writing that
/// number yields the bytes again.
pub proof fn lemma_be_bytes_of_value(bytes: Seq<u8>)
    ensures
        be_value(bytes) < radix_pow(bytes.len()),
        be_bytes(be_value(bytes), bytes.len()) == bytes,
    decreases bytes.len(),
{
    if bytes.len() > 0 {
        let front = bytes.drop_last();
        lemma_be_bytes_of_value(front);
        let v = be_value(bytes);
        assert(v % 256 == bytes.last() as nat);
        assert(v / 256 == be_value(front));
        assert(be_bytes(v, bytes.len()) =~= bytes);
    }
}

/// What four and what eight bytes cannot hold.
pub proof fn lemma_radix_pow_values()
    ensures
        radix_pow(4) == 0x1_0000_0000,
        radix_pow(8) == 0x1_0000_0000_0000_0000,
{
    reveal_with_fuel(radix_pow, 9);
}

/// Both byte orders read back what they wrote.
pub proof fn lemma_round_trip(e: Endianness, v: nat, n: nat)
    requires
        v < radix_pow(n),
    ensures
        bytes_of(e, v, n).len() == n,
        value_of(e, bytes_of(e, v, n)) == v,
{
    lemma_be_bytes_len(v, n);
    lemma_be_round_trip(v, n);
    assert(be_bytes(v, n).reverse().reverse() =~= be_bytes(v, n));
}

proof fn lemma_be_value_4(s: Seq<u8>)
    requires
        s.len() == 4,
    ensures
        be_value(s) == ((s[0] as nat * 256 + s[1] as nat) * 256 + s[2] as nat) * 256
            + s[3] as nat,
{
    let s3 = s.drop_last();
    let s2 = s3.drop_last();
    let s1 = s2.drop_last();
    assert(s1.drop_last().len() == 0);
    assert(be_value(s1.drop_last()) == 0);
    assert(be_value(s1) == s[0] as nat);
    assert(be_value(s2) == be_value(s1) * 256 + s[1] as nat);
    assert(be_value(s3) == be_value(s2) * 256 + s[2] as nat);
}

proof fn lemma_be_value_8(s: Seq<u8>)
    requires
        s.len() == 8,
    ensures
        be_value(s) == be_value(s.subrange(0, 4)) * 0x1_0000_0000 + be_value(s.subrange(4, 8)),
{
    let hi = s.subrange(0, 4);
    let lo = s.subrange(4, 8);
    lemma_be_value_4(hi);
    lemma_be_value_4(lo);
    let s7 = s.drop_last();
    let s6 = s7.drop_last();
    let s5 = s6.drop_last();
    let s4 = s5.drop_last();
    assert(s4 =~= hi);
    assert(be_value(s5) == be_value(s4) * 256 + s[4] as nat);
    assert(be_value(s6) == be_value(s5) * 256 + s[5] as nat);
    assert(be_value(s7) == be_value(s6) * 256 + s[6] as nat);
    assert(be_value(s) == be_value(s7) * 256 + s[7] as nat);
}

fn be_u32(b0: u8, b1: u8, b2: u8, b3: u8) -> (v: u32)
    ensures
        v as nat == be_value(seq![b0, b1, b2, b3]),
{
    proof {
        lemma_be_value_4(seq![b0, b1, b2, b3]);
    }
    let w0: u32 = b0 as u32;
    let w1: u32 = b1 as u32;
    let w2: u32 = b2 as u32;
    let w3: u32 = b3 as u32;
    ((w0 * 256 + w1) * 256 + w2) * 256 + w3
}

/// Decodes a field of four bytes.
pub fn decode_u32(e: Endianness, bytes: &[u8]) -> (v: u32)
    requires
        bytes@.len() == 4,
    ensures
        v as nat == value_of(e, bytes@),
{
    match e {
        Endianness::Big => {
            assert(bytes@ =~= seq![bytes@[0], bytes@[1], bytes@[2], bytes@[3]]);
            be_u32(bytes[0], bytes[1], bytes[2], bytes[3])
        },
        Endianness::Little => {
            assert(bytes@.reverse() =~= seq![bytes@[3], bytes@[2], bytes@[1], bytes@[0]]);
            be_u32(bytes[3], bytes[2], bytes[1], bytes[0])
        },
    }
}

/// Decodes a field of eight bytes.
pub fn decode_u64(e: Endianness, bytes: &[u8]) -> (v: u64)
    requires
        bytes@.len() == 8,
    ensures
        v as nat == value_of(e, bytes@),
{
    let ghost s = bytes@;
    match e {
        Endianness::Big => {
            let hi: u32 = be_u32(bytes[0], bytes[1], bytes[2], bytes[3]);
            let lo: u32 = be_u32(bytes[4], bytes[5], bytes[6], bytes[7]);
            proof {
                lemma_be_value_8(s);
                assert(s.subrange(0, 4) =~= seq![s[0], s[1], s[2], s[3]]);
                assert(s.subrange(4, 8) =~= seq![s[4], s[5], s[6], s[7]]);
            }
            (hi as u64) * 0x1_0000_0000 + (lo as u64)
        },
        Endianness::Little => {
            let hi: u32 = be_u32(bytes[7], bytes[6], bytes[5], bytes[4]);
            let lo: u32 = be_u32(bytes[3], bytes[2], bytes[1], bytes[0]);
            proof {
                let r = s.reverse();
                lemma_be_value_8(r);
                assert(r.subrange(0, 4) =~= seq![s[7], s[6], s[5], s[4]]);
                assert(r.subrange(4, 8) =~= seq![s[3], s[2], s[1], s[0]]);
            }
            (hi as u64) * 0x1_0000_0000 + (lo as u64)
        },
    }
}


proof fn lemma_be_bytes_4(v: nat)
    ensures
        be_bytes(v, 4) == seq![
            (v / 256 / 256 / 256 % 256) as u8,
            (v / 256 / 256 % 256) as u8,
            (v / 256 % 256) as u8,
            (v % 256) as u8,
        ],
{
    reveal_with_fuel(be_bytes, 5);
    assert(be_bytes(v, 4) =~= seq![
        (v / 256 / 256 / 256 % 256) as u8,
        (v / 256 / 256 % 256) as u8,
        (v / 256 % 256) as u8,
        (v % 256) as u8,
    ]);
}

fn be_u32_bytes(v: u32) -> (b: [u8; 4])
    ensures
        b@ == be_bytes(v as nat, 4),
{
    proof {
        lemma_be_bytes_4(v as nat);
    }
    let b3: u8 = (v % 256) as u8;
    let r2: u32 = v / 256;
    let b2: u8 = (r2 % 256) as u8;
    let r1: u32 = r2 / 256;
    let b1: u8 = (r1 % 256) as u8;
    let r0: u32 = r1 / 256;
    let b0: u8 = (r0 % 256) as u8;
    let b: [u8; 4] = [b0, b1, b2, b3];
    assert(b@ =~= be_bytes(v as nat, 4));
    b
}

/// Appends the four bytes of `v` to `out`.
pub fn encode_u32(e: Endianness, v: u32, out: &mut Vec<u8>)
    ensures
        final(out)@ == old(out)@ + bytes_of(e, v as nat, 4),
{
    let b: [u8; 4] = be_u32_bytes(v);
    match e {
        Endianness::Big => {
            out.push(b[0]);
            out.push(b[1]);
            out.push(b[2]);
            out.push(b[3]);
        },
        Endianness::Little => {
            out.push(b[3]);
            out.push(b[2]);
            out.push(b[1]);
            out.push(b[0]);
        },
    }
    assert(out@ =~= old(out)@ + bytes_of(e, v as nat, 4));
}

fn be_u64_bytes(v: u64) -> (b: [u8; 8])
    ensures
        b@ == be_bytes(v as nat, 8),
{
    let b7: u8 = (v % 256) as u8;
    let r6: u64 = v / 256;
    let b6: u8 = (r6 % 256) as u8;
    let r5: u64 = r6 / 256;
    let b5: u8 = (r5 % 256) as u8;
    let r4: u64 = r5 / 256;
    let b4: u8 = (r4 % 256) as u8;
    let r3: u64 = r4 / 256;
    let b3: u8 = (r3 % 256) as u8;
    let r2: u64 = r3 / 256;
    let b2: u8 = (r2 % 256) as u8;
    let r1: u64 = r2 / 256;
    let b1: u8 = (r1 % 256) as u8;
    let r0: u64 = r1 / 256;
    let b0: u8 = (r0 % 256) as u8;
    let b: [u8; 8] = [b0, b1, b2, b3, b4, b5, b6, b7];
    proof {
        assert(be_bytes(r0 as nat, 1) =~= seq![b0]) by {
            reveal_with_fuel(be_bytes, 2);
        }
        assert(be_bytes(r1 as nat, 2) =~= seq![b0, b1]);
        assert(be_bytes(r2 as nat, 3) =~= seq![b0, b1, b2]);
        assert(be_bytes(r3 as nat, 4) =~= seq![b0, b1, b2, b3]);
        assert(be_bytes(r4 as nat, 5) =~= seq![b0, b1, b2, b3, b4]);
        assert(be_bytes(r5 as nat, 6) =~= seq![b0, b1, b2, b3, b4, b5]);
        assert(be_bytes(r6 as nat, 7) =~= seq![b0, b1, b2, b3, b4, b5, b6]);
        assert(be_bytes(v as nat, 8) =~= seq![b0, b1, b2, b3, b4, b5, b6, b7]);
        assert(b@ =~= seq![b0, b1, b2, b3, b4, b5, b6, b7]);
    }
    b
}

/// Appends the eight bytes of `v` to `out`.
pub fn encode_u64(e: Endianness, v: u64, out: &mut Vec<u8>)
    ensures
        final(out)@ == old(out)@ + bytes_of(e, v as nat, 8),
{
    let b: [u8; 8] = be_u64_bytes(v);
    match e {
        Endianness::Big => {
            out.push(b[0]);
            out.push(b[1]);
            out.push(b[2]);
            out.push(b[3]);
            out.push(b[4]);
            out.push(b[5]);
            out.push(b[6]);
            out.push(b[7]);
        },
        Endianness::Little => {
            out.push(b[7]);
            out.push(b[6]);
            out.push(b[5]);
            out.push(b[4]);
            out.push(b[3]);
            out.push(b[2]);
            out.push(b[1]);
            out.push(b[0]);
        },
    }
    assert(out@ =~= old(out)@ + bytes_of(e, v as nat, 8));
}

/// The bytes of a batch of fields, in order.
pub open spec fn encoded(e: Endianness, fields: Seq<Field>) -> Seq<u8>
    decreases fields.len(),
{
    if fields.len() == 0 {
        Seq::empty()
    } else {
        encoded(e, fields.drop_last()) + bytes_of(
            e,
            fields.last().value(),
            fields.last().width().len(),
        )
    }
}

/// Total number of bytes of fields of the given widths.
pub open spec fn total_len(widths: Seq<Width>) -> nat
    decreases widths.len(),
{
    if widths.len() == 0 {
        0
    } else {
        total_len(widths.drop_last()) + widths.last().len()
    }
}

/// The fields of the given widths that a stream starts with, or `None`
/// where the stream ends before the last of them is complete.
pub open spec fn decoded(e: Endianness, widths: Seq<Width>, bytes: Seq<u8>) -> Option<Seq<Field>>
    decreases widths.len(),
{
    if widths.len() == 0 {
        Some(Seq::empty())
    } else {
        let start = total_len(widths.drop_last()) as int;
        let end = total_len(widths) as int;
        match decoded(e, widths.drop_last(), bytes) {
            Some(front) if end <= bytes.len() => Some(
                front.push(Field::of(widths.last(), value_of(e, bytes.subrange(start, end)))),
            ),
            _ => None,
        }
    }
}

/// The widths of a batch of fields.
pub open spec fn widths_of(fields: Seq<Field>) -> Seq<Width> {
    Seq::new(fields.len(), |i: int| fields[i].width())
}

/// A batch takes as many bytes as the widths of its fields add up to.
pub proof fn lemma_encoded_len(e: Endianness, fields: Seq<Field>)
    ensures
        encoded(e, fields).len() == total_len(widths_of(fields)),
    decreases fields.len(),
{
    if fields.len() > 0 {
        lemma_encoded_len(e, fields.drop_last());
        assert(widths_of(fields).drop_last() =~= widths_of(fields.drop_last()));
        lemma_be_bytes_len(fields.last().value(), fields.last().width().len());
    }
}

/// What `decoded` finds depends only on the bytes that the widths cover.
pub proof fn lemma_decoded_prefix(e: Endianness, widths: Seq<Width>, a: Seq<u8>, b: Seq<u8>)
    requires
        total_len(widths) <= a.len(),
        total_len(widths) <= b.len(),
        a.subrange(0, total_len(widths) as int) == b.subrange(0, total_len(widths) as int),
    ensures
        decoded(e, widths, a) == decoded(e, widths, b),
    decreases widths.len(),
{
    if widths.len() > 0 {
        let front = widths.drop_last();
        let start = total_len(front) as int;
        let end = total_len(widths) as int;
        assert(a.subrange(0, start) =~= a.subrange(0, end).subrange(0, start));
        assert(b.subrange(0, start) =~= b.subrange(0, end).subrange(0, start));
        lemma_decoded_prefix(e, front, a, b);
        assert(a.subrange(start, end) =~= a.subrange(0, end).subrange(start, end));
        assert(b.subrange(start, end) =~= b.subrange(0, end).subrange(start, end));
    }
}

/// Encoding a batch of fields of mixed widths and decoding the bytes with
/// the same widths and the same byte order returns the fields unchanged,
/// whatever follows them in the stream.
pub proof fn lemma_codec_round_trip(e: Endianness, fields: Seq<Field>, rest: Seq<u8>)
    ensures
        decoded(e, widths_of(fields), encoded(e, fields) + rest) == Some(fields),
    decreases fields.len(),
{
    let widths = widths_of(fields);
    let bytes = encoded(e, fields) + rest;
    if fields.len() == 0 {
        assert(fields =~= Seq::<Field>::empty());
    } else {
        let front = fields.drop_last();
        let last = fields.last();
        let n = last.width().len();
        let tail = bytes_of(e, last.value(), n);
        assert(widths.drop_last() =~= widths_of(front));
        lemma_encoded_len(e, front);
        lemma_encoded_len(e, fields);
        lemma_radix_pow_values();
        lemma_round_trip(e, last.value(), n);
        lemma_codec_round_trip(e, front, tail + rest);
        assert(encoded(e, front) + (tail + rest) =~= bytes);
        let start = total_len(widths.drop_last()) as int;
        let end = total_len(widths) as int;
        assert(bytes.subrange(start, end) =~= tail);
        assert(Field::of(widths.last(), last.value()) == last);
        assert(front.push(last) =~= fields);
    }
}

/// A cursor over the bytes of one batch.
pub struct Reader {
    data: Vec<u8>,
    pos: usize,
}

impl View for Reader {
    type V = Seq<u8>;

    /// The bytes that have not been read yet.
    closed spec fn view(&self) -> Seq<u8> {
        self.data@.subrange(self.pos as int, self.data@.len() as int)
    }
}

impl Reader {
    #[verifier::type_invariant]
    spec fn inv(self) -> bool {
        self.pos <= self.data@.len()
    }

    /// A reader at the start of `data`.
    pub fn new(data: Vec<u8>) -> (r: Self)
        ensures
            r@ == data@,
    {
        let r = Reader { data, pos: 0 };
        assert(r@ =~= data@);
        r
    }

    /// Number of bytes left.
    pub fn remaining(&self) -> (n: usize)
        ensures
            n == self@.len(),
    {
        proof {
            use_type_invariant(self);
        }
        self.data.len() - self.pos
    }

    /// Reads one field of four bytes. A stream that ends before the field
    /// is complete is left where it was.
    pub fn read_u32(&mut self, e: Endianness) -> (r: Result<u32, CodecError>)
        ensures
            match r {
                Ok(v) => {
                    &&& old(self)@.len() >= 4
                    &&& v as nat == value_of(e, old(self)@.subrange(0, 4))
                    &&& final(self)@ == old(self)@.subrange(4, old(self)@.len() as int)
                },
                Err(err) => {
                    &&& old(self)@.len() < 4
                    &&& err == CodecError::UnexpectedEof
                    &&& final(self)@ == old(self)@
                },
            },
    {
        proof {
            use_type_invariant(&*self);
        }
        if self.data.len() - self.pos < 4 {
            return Err(CodecError::UnexpectedEof);
        }
        let field = vstd::slice::slice_subrange(self.data.as_slice(), self.pos, self.pos + 4);
        let v: u32 = decode_u32(e, field);
        assert(field@ =~= old(self)@.subrange(0, 4));
        self.pos = self.pos + 4;
        assert(self@ =~= old(self)@.subrange(4, old(self)@.len() as int));
        Ok(v)
    }

    /// Reads one field of eight bytes. A stream that ends before the field
    /// is complete is left where it was.
    pub fn read_u64(&mut self, e: Endianness) -> (r: Result<u64, CodecError>)
        ensures
            match r {
                Ok(v) => {
                    &&& old(self)@.len() >= 8
                    &&& v as nat == value_of(e, old(self)@.subrange(0, 8))
                    &&& final(self)@ == old(self)@.subrange(8, old(self)@.len() as int)
                },
                Err(err) => {
                    &&& old(self)@.len() < 8
                    &&& err == CodecError::UnexpectedEof
                    &&& final(self)@ == old(self)@
                },
            },
    {
        proof {
            use_type_invariant(&*self);
        }
        if self.data.len() - self.pos < 8 {
            return Err(CodecError::UnexpectedEof);
        }
        let field = vstd::slice::slice_subrange(self.data.as_slice(), self.pos, self.pos + 8);
        let v: u64 = decode_u64(e, field);
        assert(field@ =~= old(self)@.subrange(0, 8));
        self.pos = self.pos + 8;
        assert(self@ =~= old(self)@.subrange(8, old(self)@.len() as int));
        Ok(v)
    }
}

/// Encodes a batch of fields, in order.
pub fn encode_fields(e: Endianness, fields: &[Field]) -> (out: Vec<u8>)
    ensures
        out@ == encoded(e, fields@),
{
    let mut out: Vec<u8> = Vec::new();
    let mut i: usize = 0;
    while i < fields.len()
        invariant
            i <= fields@.len(),
            out@ == encoded(e, fields@.take(i as int)),
        decreases fields@.len() - i,
    {
        assert(fields@.take(i + 1).drop_last() =~= fields@.take(i as int));
        match fields[i] {
            Field::U32(v) => encode_u32(e, v, &mut out),
            Field::U64(v) => encode_u64(e, v, &mut out),
        }
        i = i + 1;
    }
    assert(fields@.take(i as int) =~= fields@);
    out
}

/// Decodes the fields of the given widths from the start of `bytes`.
///
/// The widths must be given in the order of the request that produced the
/// bytes; what follows the last field is ignored.
pub fn decode_fields(e: Endianness, widths: &[Width], bytes: Vec<u8>) -> (r: Result<
    Vec<Field>,
    CodecError,
>)
    ensures
        match r {
            Ok(fields) => decoded(e, widths@, bytes@) == Some(fields@),
            Err(err) => err == CodecError::UnexpectedEof && decoded(e, widths@, bytes@) is None,
        },
{
    let ghost all = bytes@;
    let mut reader = Reader::new(bytes);
    let mut fields: Vec<Field> = Vec::new();
    let mut i: usize = 0;
    while i < widths.len()
        invariant
            i <= widths@.len(),
            all == bytes@,
            total_len(widths@.take(i as int)) <= all.len(),
            reader@ == all.subrange(total_len(widths@.take(i as int)) as int, all.len() as int),
            decoded(e, widths@.take(i as int), all) == Some(fields@),
        decreases widths@.len() - i,
    {
        let ghost front = widths@.take(i as int);
        let ghost next = widths@.take(i + 1);
        let ghost start = total_len(front) as int;
        assert(next.drop_last() =~= front);
        assert(next.last() == widths@[i as int]);
        let field = match widths[i] {
            Width::Four => match reader.read_u32(e) {
                Ok(v) => {
                    assert(all.subrange(start, all.len() as int).subrange(0, 4) =~= all.subrange(
                        start,
                        start + 4,
                    ));
                    assert(all.subrange(start, all.len() as int).subrange(
                        4,
                        all.len() - start,
                    ) =~= all.subrange(start + 4, all.len() as int));
                    Field::U32(v)
                },
                Err(err) => {
                    proof {
                        assert(total_len(next) == total_len(front) + next.last().len());
                        assert(decoded(e, next, all) is None);
                        lemma_decoded_none_extends(e, widths@, all, i + 1);
                    }
                    return Err(err);
                },
            },
            Width::Eight => match reader.read_u64(e) {
                Ok(v) => {
                    assert(all.subrange(start, all.len() as int).subrange(0, 8) =~= all.subrange(
                        start,
                        start + 8,
                    ));
                    assert(all.subrange(start, all.len() as int).subrange(
                        8,
                        all.len() - start,
                    ) =~= all.subrange(start + 8, all.len() as int));
                    Field::U64(v)
                },
                Err(err) => {
                    proof {
                        assert(total_len(next) == total_len(front) + next.last().len());
                        assert(decoded(e, next, all) is None);
                        lemma_decoded_none_extends(e, widths@, all, i + 1);
                    }
                    return Err(err);
                },
            },
        };
        fields.push(field);
        i = i + 1;
    }
    assert(widths@.take(i as int) =~= widths@);
    Ok(fields)
}

/// Once a prefix of the widths cannot be decoded, no longer one can.
proof fn lemma_decoded_none_extends(e: Endianness, widths: Seq<Width>, bytes: Seq<u8>, k: int)
    requires
        0 <= k <= widths.len(),
        decoded(e, widths.take(k), bytes) is None,
    ensures
        decoded(e, widths, bytes) is None,
    decreases widths.len() - k,
{
    if k < widths.len() {
        assert(widths.take(k + 1).drop_last() =~= widths.take(k));
        lemma_decoded_none_extends(e, widths, bytes, k + 1);
    } else {
        assert(widths.take(k) =~= widths);
    }
}

} // verus!
