use vstd::prelude::*;
use crate::bytes::{
    lemma_be_u16, lemma_be_u32, lemma_be_u64, u16_of_be, u32_of_be, u64_of_be,
};
use crate::errors::DecodeError;
use crate::bytes::{be_u32, be_u64, lemma_i16_cast, lemma_i32_cast, lemma_i64_cast, lemma_i8_cast};
use crate::encoder::Encoder;
use crate::encoder::{string_fits, string_wire};
use vstd::utf8::{
    decode_utf8, encode_utf8, encode_utf8_decode_utf8, encode_utf8_valid_utf8, valid_utf8,
};

verus! {

/// A byte buffer with a read position.
pub struct Cursor {
    pub data: Vec<u8>,
    pub pos: usize,
}

impl Cursor {
    pub open spec fn wf(&self) -> bool {
        self.pos <= self.data@.len()
    }

    /// The bytes not read yet.
    pub open spec fn rest(&self) -> Seq<u8> {
        self.data@.skip(self.pos as int)
    }

    /// A cursor at the start of `data`.
    pub fn new(data: Vec<u8>) -> (r: Cursor)
        ensures
            r.wf(),
            r.data@ == data@,
            r.pos == 0,
            r.rest() == data@,
    {
        let r = Cursor { data, pos: 0 };
        assert(r.rest() =~= r.data@);
        r
    }

    /// How many bytes are left to read.
    pub fn remaining(&self) -> (n: usize)
        requires
            self.wf(),
        ensures
            n == self.rest().len(),
    {
        self.data.len() - self.pos
    }

    /// Takes the next `n` bytes, or fails with `IO` (reading nothing) when fewer are left.
    pub fn read_bytes(&mut self, n: usize) -> (r: Result<Vec<u8>, DecodeError>)
        requires
            old(self).wf(),
        ensures
            final(self).wf(),
            final(self).data == old(self).data,
            n <= old(self).rest().len() ==> r is Ok && r->Ok_0@ == old(self).rest().take(n as int)
                && final(self).pos == old(self).pos + n,
            n > old(self).rest().len() ==> r == Err::<Vec<u8>, DecodeError>(DecodeError::IO)
                && final(self).pos == old(self).pos,
    {
        if n > self.data.len() - self.pos {
            return Err(DecodeError::IO);
        }
        let mut out: Vec<u8> = Vec::new();
        let start = self.pos;
        let end = start + n;
        let mut i: usize = 0;
        while i < n
            invariant
                self.wf(),
                self.data == old(self).data,
                self.pos == start,
                start == old(self).pos,
                end == start + n,
                end <= self.data@.len(),
                i <= n,
                out@ == old(self).rest().take(i as int),
            decreases n - i,
        {
            out.push(self.data[start + i]);
            i = i + 1;
            assert(out@ =~= old(self).rest().take(i as int));
        }
        self.pos = start + n;
        Ok(out)
    }
}

/// A value that can be read back from the bytes its encoder wrote.
pub trait Decoder: DeepView + Sized {
    /// The outcome of reading a value from the front of `data`: its model and the number of
    /// bytes it took, or the error.
    spec fn spec_decode(data: Seq<u8>) -> Result<(<Self as DeepView>::V, nat), DecodeError>;

    /// Reads one value at the cursor and moves past exactly the bytes it took.
    fn decode(reader: &mut Cursor) -> (r: Result<Self, DecodeError>)
        requires
            old(reader).wf(),
        ensures
            final(reader).wf(),
            final(reader).data == old(reader).data,
            match Self::spec_decode(old(reader).rest()) {
                Ok((v, n)) => r is Ok && r->Ok_0.deep_view() == v && final(reader).pos == old(
                    reader,
                ).pos + n,
                Err(e) => r == Err::<Self, DecodeError>(e),
            },
    ;
}

/// Reading length-prefixed strings and byte arrays from a source.
pub trait DecoderReadExt {
    /// Whether the source is in a state to be read from.
    spec fn ready(&self) -> bool;

    /// The bytes the source has not handed out yet.
    spec fn unread(&self) -> Seq<u8>;

    /// Reads a `u32` byte length, then that many bytes, which must be UTF-8.
    fn read_string(&mut self) -> (r: Result<String, DecodeError>)
        requires
            old(self).ready(),
        ensures
            final(self).ready(),
            match parse_string(old(self).unread()) {
                Ok((s, n)) => r is Ok && r->Ok_0@ == s && final(self).unread() == old(
                    self,
                ).unread().skip(n as int),
                Err(e) => r == Err::<String, DecodeError>(e),
            },
    ;

    /// Reads a `u32` byte length, then that many bytes.
    fn read_byte_array(&mut self) -> (r: Result<Vec<u8>, DecodeError>)
        requires
            old(self).ready(),
        ensures
            final(self).ready(),
            match parse_byte_array(old(self).unread()) {
                Ok((b, n)) => r is Ok && r->Ok_0@ == b && final(self).unread() == old(
                    self,
                ).unread().skip(n as int),
                Err(e) => r == Err::<Vec<u8>, DecodeError>(e),
            },
    ;
}

/// A `u32` length prefix followed by that many bytes.
pub open spec fn parse_byte_array(data: Seq<u8>) -> Result<(Seq<u8>, nat), DecodeError> {
    if data.len() < 4 {
        Err(DecodeError::IO)
    } else {
        let n = u32_of_be(data);
        if data.len() - 4 < n {
            Err(DecodeError::IO)
        } else {
            Ok((data.subrange(4, 4 + n), (4 + n) as nat))
        }
    }
}

/// A length-prefixed byte array that must hold valid UTF-8.
pub open spec fn parse_string(data: Seq<u8>) -> Result<(Seq<char>, nat), DecodeError> {
    match parse_byte_array(data) {
        Ok((b, n)) => if valid_utf8(b) {
            Ok((decode_utf8(b), n))
        } else {
            Err(DecodeError::FromUtf8)
        },
        Err(e) => Err(e),
    }
}

/// Relies on `String::from_utf8`: the bytes are taken as they are when they are valid UTF-8,
/// and refused otherwise.
#[verifier::external_body]
fn string_from_utf8(bytes: Vec<u8>) -> (r: Option<String>)
    ensures
        r is Some <==> valid_utf8(bytes@),
        r matches Some(s) ==> s@ == decode_utf8(bytes@),
{
    String::from_utf8(bytes).ok()
}

impl Cursor {
    /// Reads a `u32` byte length, then that many bytes.
    pub fn take_byte_array(&mut self) -> (r: Result<Vec<u8>, DecodeError>)
        requires
            old(self).wf(),
        ensures
            final(self).wf(),
            final(self).data == old(self).data,
            match parse_byte_array(old(self).rest()) {
                Ok((b, n)) => r is Ok && r->Ok_0@ == b && final(self).pos == old(self).pos + n,
                Err(e) => r == Err::<Vec<u8>, DecodeError>(e),
            },
    {
        let len = match u32::decode(self) {
            Ok(n) => n,
            Err(e) => return Err(e),
        };
        let r = self.read_bytes(len as usize);
        proof {
            let d = old(self).rest();
            assert(self.data@.skip(old(self).pos + 4) =~= d.skip(4));
            if r is Ok {
                assert(r->Ok_0@ =~= d.subrange(4, 4 + len));
            }
        }
        r
    }

    /// Reads a `u32` byte length, then that many bytes, which must be UTF-8.
    pub fn take_string(&mut self) -> (r: Result<String, DecodeError>)
        requires
            old(self).wf(),
        ensures
            final(self).wf(),
            final(self).data == old(self).data,
            match parse_string(old(self).rest()) {
                Ok((s, n)) => r is Ok && r->Ok_0@ == s && final(self).pos == old(self).pos + n,
                Err(e) => r == Err::<String, DecodeError>(e),
            },
    {
        let bytes = match self.take_byte_array() {
            Ok(b) => b,
            Err(e) => return Err(e),
        };
        match string_from_utf8(bytes) {
            Some(s) => Ok(s),
            None => Err(DecodeError::FromUtf8),
        }
    }
}

impl DecoderReadExt for Cursor {
    open spec fn ready(&self) -> bool {
        self.wf()
    }

    open spec fn unread(&self) -> Seq<u8> {
        self.rest()
    }

    fn read_byte_array(&mut self) -> (r: Result<Vec<u8>, DecodeError>) {
        let r = self.take_byte_array();
        proof {
            if r is Ok {
                assert(self.rest() =~= old(self).rest().skip(self.pos - old(self).pos));
            }
        }
        r
    }

    fn read_string(&mut self) -> (r: Result<String, DecodeError>) {
        let r = self.take_string();
        proof {
            if r is Ok {
                assert(self.rest() =~= old(self).rest().skip(self.pos - old(self).pos));
            }
        }
        r
    }
}

/// Reads `N` bytes for a fixed-width value, or fails with `IO` when fewer are left.
fn read_fixed(reader: &mut Cursor, n: usize) -> (r: Result<Vec<u8>, DecodeError>)
    requires
        old(reader).wf(),
    ensures
        final(reader).wf(),
        final(reader).data == old(reader).data,
        n <= old(reader).rest().len() ==> r is Ok && r->Ok_0@ == old(reader).rest().take(n as int)
            && r->Ok_0@.len() == n && final(reader).pos == old(reader).pos + n,
        n > old(reader).rest().len() ==> r == Err::<Vec<u8>, DecodeError>(DecodeError::IO),
{
    reader.read_bytes(n)
}

impl Decoder for u8 {
    open spec fn spec_decode(data: Seq<u8>) -> Result<(u8, nat), DecodeError> {
        if data.len() < 1 {
            Err(DecodeError::IO)
        } else {
            Ok((data[0], 1))
        }
    }

    fn decode(reader: &mut Cursor) -> (r: Result<u8, DecodeError>) {
        let b = match read_fixed(reader, 1) {
            Ok(b) => b,
            Err(e) => return Err(e),
        };
        Ok(b[0])
    }
}

impl Decoder for i8 {
    open spec fn spec_decode(data: Seq<u8>) -> Result<(i8, nat), DecodeError> {
        if data.len() < 1 {
            Err(DecodeError::IO)
        } else {
            Ok((data[0] as i8, 1))
        }
    }

    fn decode(reader: &mut Cursor) -> (r: Result<i8, DecodeError>) {
        let b = match read_fixed(reader, 1) {
            Ok(b) => b,
            Err(e) => return Err(e),
        };
        Ok(b[0] as i8)
    }
}

impl Decoder for u16 {
    open spec fn spec_decode(data: Seq<u8>) -> Result<(u16, nat), DecodeError> {
        if data.len() < 2 {
            Err(DecodeError::IO)
        } else {
            Ok((u16_of_be(data), 2))
        }
    }

    fn decode(reader: &mut Cursor) -> (r: Result<u16, DecodeError>) {
        let b = match read_fixed(reader, 2) {
            Ok(b) => b,
            Err(e) => return Err(e),
        };
        Ok(((b[0] as u16) << 8u16) | (b[1] as u16))
    }
}

impl Decoder for i16 {
    open spec fn spec_decode(data: Seq<u8>) -> Result<(i16, nat), DecodeError> {
        if data.len() < 2 {
            Err(DecodeError::IO)
        } else {
            Ok((u16_of_be(data) as i16, 2))
        }
    }

    fn decode(reader: &mut Cursor) -> (r: Result<i16, DecodeError>) {
        match u16::decode(reader) {
            Ok(x) => Ok(x as i16),
            Err(e) => Err(e),
        }
    }
}

impl Decoder for u32 {
    open spec fn spec_decode(data: Seq<u8>) -> Result<(u32, nat), DecodeError> {
        if data.len() < 4 {
            Err(DecodeError::IO)
        } else {
            Ok((u32_of_be(data), 4))
        }
    }

    fn decode(reader: &mut Cursor) -> (r: Result<u32, DecodeError>) {
        let b = match read_fixed(reader, 4) {
            Ok(b) => b,
            Err(e) => return Err(e),
        };
        Ok(((b[0] as u32) << 24u32) | ((b[1] as u32) << 16u32) | ((b[2] as u32) << 8u32) | (
        b[3] as u32))
    }
}

impl Decoder for i32 {
    open spec fn spec_decode(data: Seq<u8>) -> Result<(i32, nat), DecodeError> {
        if data.len() < 4 {
            Err(DecodeError::IO)
        } else {
            Ok((u32_of_be(data) as i32, 4))
        }
    }

    fn decode(reader: &mut Cursor) -> (r: Result<i32, DecodeError>) {
        match u32::decode(reader) {
            Ok(x) => Ok(x as i32),
            Err(e) => Err(e),
        }
    }
}

impl Decoder for u64 {
    open spec fn spec_decode(data: Seq<u8>) -> Result<(u64, nat), DecodeError> {
        if data.len() < 8 {
            Err(DecodeError::IO)
        } else {
            Ok((u64_of_be(data), 8))
        }
    }

    fn decode(reader: &mut Cursor) -> (r: Result<u64, DecodeError>) {
        let b = match read_fixed(reader, 8) {
            Ok(b) => b,
            Err(e) => return Err(e),
        };
        Ok(((b[0] as u64) << 56u64) | ((b[1] as u64) << 48u64) | ((b[2] as u64) << 40u64) | ((
        b[3] as u64) << 32u64) | ((b[4] as u64) << 24u64) | ((b[5] as u64) << 16u64) | ((
        b[6] as u64) << 8u64) | (b[7] as u64))
    }
}

impl Decoder for i64 {
    open spec fn spec_decode(data: Seq<u8>) -> Result<(i64, nat), DecodeError> {
        if data.len() < 8 {
            Err(DecodeError::IO)
        } else {
            Ok((u64_of_be(data) as i64, 8))
        }
    }

    fn decode(reader: &mut Cursor) -> (r: Result<i64, DecodeError>) {
        match u64::decode(reader) {
            Ok(x) => Ok(x as i64),
            Err(e) => Err(e),
        }
    }
}

impl Decoder for bool {
    open spec fn spec_decode(data: Seq<u8>) -> Result<(bool, nat), DecodeError> {
        if data.len() < 1 {
            Err(DecodeError::IO)
        } else if data[0] == 0 {
            Ok((false, 1))
        } else if data[0] == 1 {
            Ok((true, 1))
        } else {
            Err(DecodeError::NonBoolValue)
        }
    }

    fn decode(reader: &mut Cursor) -> (r: Result<bool, DecodeError>) {
        match u8::decode(reader) {
            Ok(0) => Ok(false),
            Ok(1) => Ok(true),
            Ok(_) => Err(DecodeError::NonBoolValue),
            Err(e) => Err(e),
        }
    }
}

impl Decoder for String {
    open spec fn spec_decode(data: Seq<u8>) -> Result<(Seq<char>, nat), DecodeError> {
        parse_string(data)
    }

    fn decode(reader: &mut Cursor) -> (r: Result<String, DecodeError>) {
        reader.take_string()
    }
}

/// Reads `count` values of `T` one after the other from the front of `data`.
pub open spec fn parse_seq<T: Decoder>(data: Seq<u8>, count: nat) -> Result<
    (Seq<T::V>, nat),
    DecodeError,
>
    decreases count,
{
    if count == 0 {
        Ok((seq![], 0))
    } else {
        match parse_seq::<T>(data, (count - 1) as nat) {
            Ok((vs, n)) => match T::spec_decode(data.skip(n as int)) {
                Ok((v, m)) => Ok((vs.push(v), n + m)),
                Err(e) => Err(e),
            },
            Err(e) => Err(e),
        }
    }
}

/// Once reading a run of values has failed, reading a longer run fails the same way.
pub proof fn lemma_parse_seq_err<T: Decoder>(data: Seq<u8>, count: nat, more: nat)
    requires
        parse_seq::<T>(data, count) is Err,
        count <= more,
    ensures
        parse_seq::<T>(data, more) == parse_seq::<T>(data, count),
    decreases more - count,
{
    if count < more {
        lemma_parse_seq_err::<T>(data, count, (more - 1) as nat);
    }
}

impl<T: Decoder> Decoder for Vec<T> {
    open spec fn spec_decode(data: Seq<u8>) -> Result<(Seq<T::V>, nat), DecodeError> {
        if data.len() < 4 {
            Err(DecodeError::IO)
        } else {
            match parse_seq::<T>(data.skip(4), u32_of_be(data) as nat) {
                Ok((vs, n)) => Ok((vs, n + 4)),
                Err(e) => Err(e),
            }
        }
    }

    fn decode(reader: &mut Cursor) -> (r: Result<Vec<T>, DecodeError>) {
        let len = match u32::decode(reader) {
            Ok(n) => n,
            Err(e) => return Err(e),
        };
        let ghost d = old(reader).rest().skip(4);
        let ghost start = reader.pos;
        assert(reader.rest() =~= d);
        let mut out: Vec<T> = Vec::new();
        assert(out.deep_view() =~= Seq::<T::V>::empty());
        let mut i: u32 = 0;
        while i < len
            invariant
                reader.wf(),
                reader.data == old(reader).data,
                start <= reader.pos,
                d == reader.data@.skip(start as int),
                d == old(reader).rest().skip(4),
                old(reader).rest().len() >= 4,
                len == u32_of_be(old(reader).rest()),
                i <= len,
                parse_seq::<T>(d, i as nat) == Ok::<(Seq<T::V>, nat), DecodeError>(
                    (out.deep_view(), (reader.pos - start) as nat),
                ),
            decreases len - i,
        {
            let ghost before = reader.pos;
            let ghost vs = out.deep_view();
            assert(d.skip(before - start) =~= reader.rest());
            match T::decode(reader) {
                Ok(x) => {
                    out.push(x);
                    assert(out.deep_view() =~= vs.push(x.deep_view()));
                },
                Err(e) => {
                    proof {
                        assert(parse_seq::<T>(d, (i + 1) as nat) == Err::<(Seq<T::V>, nat), DecodeError>(e));
                        lemma_parse_seq_err::<T>(d, (i + 1) as nat, len as nat);
                    }
                    return Err(e);
                },
            }
            i = i + 1;
        }
        Ok(out)
    }
}

/// A string written by its encoder reads back as the same characters, taking exactly the
/// bytes written, whatever follows them.
pub proof fn lemma_string_round_trip(s: Seq<char>, rest: Seq<u8>)
    requires
        string_fits(s),
    ensures
        parse_string(string_wire(s) + rest) == Ok::<(Seq<char>, nat), DecodeError>(
            (s, string_wire(s).len()),
        ),
{
    let b = encode_utf8(s);
    let d = string_wire(s) + rest;
    assert(d =~= be_u32(b.len() as u32) + (b + rest));
    lemma_be_u32(b.len() as u32, b + rest);
    assert(d.subrange(4, 4 + b.len() as int) =~= b);
    encode_utf8_valid_utf8(s);
    encode_utf8_decode_utf8(s);
}

/// A 64-bit signed integer written by its encoder reads back unchanged from 8 bytes.
pub proof fn lemma_i64_round_trip(x: i64, rest: Seq<u8>)
    ensures
        <i64 as Decoder>::spec_decode(be_u64(x as u64) + rest) == Ok::<
            (i64, nat),
            DecodeError,
        >((x, 8)),
{
    lemma_be_u64(x as u64, rest);
    lemma_i64_cast(x);
}

/// Each fixed-width integer and boolean reads back unchanged from the bytes its encoder
/// wrote, taking exactly those bytes, whatever follows them.
pub proof fn lemma_primitives_round_trip(
    a: u8,
    b: i8,
    c: u16,
    d: i16,
    e: u32,
    f: i32,
    g: u64,
    h: bool,
    rest: Seq<u8>,
)
    ensures
        <u8 as Decoder>::spec_decode(<u8 as Encoder>::spec_encode(a) + rest) == Ok::<
            (u8, nat),
            DecodeError,
        >((a, 1)),
        <i8 as Decoder>::spec_decode(<i8 as Encoder>::spec_encode(b) + rest) == Ok::<
            (i8, nat),
            DecodeError,
        >((b, 1)),
        <u16 as Decoder>::spec_decode(<u16 as Encoder>::spec_encode(c) + rest) == Ok::<
            (u16, nat),
            DecodeError,
        >((c, 2)),
        <i16 as Decoder>::spec_decode(<i16 as Encoder>::spec_encode(d) + rest) == Ok::<
            (i16, nat),
            DecodeError,
        >((d, 2)),
        <u32 as Decoder>::spec_decode(<u32 as Encoder>::spec_encode(e) + rest) == Ok::<
            (u32, nat),
            DecodeError,
        >((e, 4)),
        <i32 as Decoder>::spec_decode(<i32 as Encoder>::spec_encode(f) + rest) == Ok::<
            (i32, nat),
            DecodeError,
        >((f, 4)),
        <u64 as Decoder>::spec_decode(<u64 as Encoder>::spec_encode(g) + rest) == Ok::<
            (u64, nat),
            DecodeError,
        >((g, 8)),
        <bool as Decoder>::spec_decode(<bool as Encoder>::spec_encode(h) + rest) == Ok::<
            (bool, nat),
            DecodeError,
        >((h, 1)),
{
    lemma_i8_cast(b);
    lemma_be_u16(c, rest);
    lemma_be_u16(d as u16, rest);
    lemma_i16_cast(d);
    lemma_be_u32(e, rest);
    lemma_be_u32(f as u32, rest);
    lemma_i32_cast(f);
    lemma_be_u64(g, rest);
    assert((seq![a] + rest)[0] == a);
    assert((seq![b as u8] + rest)[0] == b as u8);
    let hb: u8 = if h { 1 } else { 0 };
    assert((seq![hb] + rest)[0] == hb);
}

} // verus!
