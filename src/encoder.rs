use vstd::prelude::*;
use crate::bytes::{be_u16, be_u32, be_u64};
use crate::errors::EncodeError;
use vstd::utf8::encode_utf8;

verus! {

/// Bytes of a string on the wire: its UTF-8 byte length as a big-endian `u32`, then those bytes.
pub open spec fn string_wire(s: Seq<char>) -> Seq<u8> {
    be_u32(encode_utf8(s).len() as u32) + encode_utf8(s)
}

/// A string can be written when its UTF-8 byte length fits the `u32` prefix.
pub open spec fn string_fits(s: Seq<char>) -> bool {
    encode_utf8(s).len() <= u32::MAX
}

/// The strings' encodings one after the other.
pub open spec fn strings_wire(ss: Seq<Seq<char>>) -> Seq<u8>
    decreases ss.len(),
{
    if ss.len() == 0 {
        seq![]
    } else {
        strings_wire(ss.drop_last()) + string_wire(ss.last())
    }
}

/// A value with a canonical byte form: the value's fields in order, with no tags or padding.
pub trait Encoder: DeepView {
    /// The bytes written for a value with the model `v`.
    spec fn spec_encode(v: <Self as DeepView>::V) -> Seq<u8>;

    /// Whether every length inside `v` fits its `u32` prefix.
    spec fn spec_encodable(v: <Self as DeepView>::V) -> bool;

    /// Appends the value's bytes to `writer`; on error nothing is appended.
    fn encode(&self, writer: &mut Vec<u8>) -> (r: Result<(), EncodeError>)
        ensures
            r is Ok <==> Self::spec_encodable(self.deep_view()),
            r is Ok ==> final(writer)@ == old(writer)@ + Self::spec_encode(self.deep_view()),
            r is Err ==> r->Err_0 == EncodeError::TryFromInt && final(writer)@ == old(writer)@,
    ;
}

/// Writing a string's length-prefixed form into a sink.
pub trait EncoderWriteExt {
    /// The bytes the sink holds.
    spec fn written(&self) -> Seq<u8>;

    /// Appends the length-prefixed UTF-8 bytes of `value`; on error nothing is appended.
    fn write_string(&mut self, value: &str) -> (r: Result<(), EncodeError>)
        ensures
            r is Ok <==> string_fits(value@),
            r is Ok ==> final(self).written() == old(self).written() + string_wire(value@),
            r is Err ==> r->Err_0 == EncodeError::TryFromInt && final(self).written() == old(
                self,
            ).written(),
    ;
}

pub fn push_u16(writer: &mut Vec<u8>, x: u16)
    ensures
        final(writer)@ == old(writer)@ + be_u16(x),
{
    writer.push((x >> 8u16) as u8);
    writer.push(x as u8);
    assert(final(writer)@ =~= old(writer)@ + be_u16(x));
}

pub fn push_u32(writer: &mut Vec<u8>, x: u32)
    ensures
        final(writer)@ == old(writer)@ + be_u32(x),
{
    writer.push((x >> 24u32) as u8);
    writer.push((x >> 16u32) as u8);
    writer.push((x >> 8u32) as u8);
    writer.push(x as u8);
    assert(writer@ =~= old(writer)@ + be_u32(x));
}

pub fn push_u64(writer: &mut Vec<u8>, x: u64)
    ensures
        final(writer)@ == old(writer)@ + be_u64(x),
{
    writer.push((x >> 56u64) as u8);
    writer.push((x >> 48u64) as u8);
    writer.push((x >> 40u64) as u8);
    writer.push((x >> 32u64) as u8);
    writer.push((x >> 24u64) as u8);
    writer.push((x >> 16u64) as u8);
    writer.push((x >> 8u64) as u8);
    writer.push(x as u8);
    assert(writer@ =~= old(writer)@ + be_u64(x));
}

/// Appends every byte of `bytes`.
pub fn push_all(writer: &mut Vec<u8>, bytes: &[u8])
    ensures
        final(writer)@ == old(writer)@ + bytes@,
{
    let mut i: usize = 0;
    while i < bytes.len()
        invariant
            i <= bytes@.len(),
            writer@ == old(writer)@ + bytes@.subrange(0, i as int),
        decreases bytes@.len() - i,
    {
        writer.push(bytes[i]);
        i = i + 1;
        assert(writer@ =~= old(writer)@ + bytes@.subrange(0, i as int));
    }
    assert(bytes@.subrange(0, i as int) =~= bytes@);
}

impl EncoderWriteExt for Vec<u8> {
    open spec fn written(&self) -> Seq<u8> {
        self@
    }

    fn write_string(&mut self, value: &str) -> (r: Result<(), EncodeError>) {
        let bytes = value.as_bytes();
        if bytes.len() > u32::MAX as usize {
            return Err(EncodeError::TryFromInt);
        }
        push_u32(self, bytes.len() as u32);
        push_all(self, bytes);
        assert(self@ =~= old(self)@ + string_wire(value@));
        Ok(())
    }
}

impl Encoder for u8 {
    open spec fn spec_encode(v: u8) -> Seq<u8> {
        seq![v]
    }

    open spec fn spec_encodable(v: u8) -> bool {
        true
    }

    fn encode(&self, writer: &mut Vec<u8>) -> (r: Result<(), EncodeError>) {
        writer.push(*self);
        assert(writer@ =~= old(writer)@ + seq![*self]);
        Ok(())
    }
}

impl Encoder for i8 {
    open spec fn spec_encode(v: i8) -> Seq<u8> {
        seq![v as u8]
    }

    open spec fn spec_encodable(v: i8) -> bool {
        true
    }

    fn encode(&self, writer: &mut Vec<u8>) -> (r: Result<(), EncodeError>) {
        writer.push(*self as u8);
        assert(writer@ =~= old(writer)@ + seq![*self as u8]);
        Ok(())
    }
}

impl Encoder for u16 {
    open spec fn spec_encode(v: u16) -> Seq<u8> {
        be_u16(v)
    }

    open spec fn spec_encodable(v: u16) -> bool {
        true
    }

    fn encode(&self, writer: &mut Vec<u8>) -> (r: Result<(), EncodeError>) {
        push_u16(writer, *self);
        Ok(())
    }
}

impl Encoder for i16 {
    open spec fn spec_encode(v: i16) -> Seq<u8> {
        be_u16(v as u16)
    }

    open spec fn spec_encodable(v: i16) -> bool {
        true
    }

    fn encode(&self, writer: &mut Vec<u8>) -> (r: Result<(), EncodeError>) {
        push_u16(writer, *self as u16);
        Ok(())
    }
}

impl Encoder for u32 {
    open spec fn spec_encode(v: u32) -> Seq<u8> {
        be_u32(v)
    }

    open spec fn spec_encodable(v: u32) -> bool {
        true
    }

    fn encode(&self, writer: &mut Vec<u8>) -> (r: Result<(), EncodeError>) {
        push_u32(writer, *self);
        Ok(())
    }
}

impl Encoder for i32 {
    open spec fn spec_encode(v: i32) -> Seq<u8> {
        be_u32(v as u32)
    }

    open spec fn spec_encodable(v: i32) -> bool {
        true
    }

    fn encode(&self, writer: &mut Vec<u8>) -> (r: Result<(), EncodeError>) {
        push_u32(writer, *self as u32);
        Ok(())
    }
}

impl Encoder for u64 {
    open spec fn spec_encode(v: u64) -> Seq<u8> {
        be_u64(v)
    }

    open spec fn spec_encodable(v: u64) -> bool {
        true
    }

    fn encode(&self, writer: &mut Vec<u8>) -> (r: Result<(), EncodeError>) {
        push_u64(writer, *self);
        Ok(())
    }
}

impl Encoder for i64 {
    open spec fn spec_encode(v: i64) -> Seq<u8> {
        be_u64(v as u64)
    }

    open spec fn spec_encodable(v: i64) -> bool {
        true
    }

    fn encode(&self, writer: &mut Vec<u8>) -> (r: Result<(), EncodeError>) {
        push_u64(writer, *self as u64);
        Ok(())
    }
}

impl Encoder for bool {
    open spec fn spec_encode(v: bool) -> Seq<u8> {
        if v {
            seq![1u8]
        } else {
            seq![0u8]
        }
    }

    open spec fn spec_encodable(v: bool) -> bool {
        true
    }

    fn encode(&self, writer: &mut Vec<u8>) -> (r: Result<(), EncodeError>) {
        let val: u8 = if *self {
            1
        } else {
            0
        };
        writer.push(val);
        assert(writer@ =~= old(writer)@ + Self::spec_encode(*self));
        Ok(())
    }
}

impl Encoder for String {
    open spec fn spec_encode(v: Seq<char>) -> Seq<u8> {
        string_wire(v)
    }

    open spec fn spec_encodable(v: Seq<char>) -> bool {
        string_fits(v)
    }

    fn encode(&self, writer: &mut Vec<u8>) -> (r: Result<(), EncodeError>) {
        writer.write_string(self.as_str())
    }
}

impl<'a> Encoder for &'a str {
    open spec fn spec_encode(v: Seq<char>) -> Seq<u8> {
        string_wire(v)
    }

    open spec fn spec_encodable(v: Seq<char>) -> bool {
        string_fits(v)
    }

    fn encode(&self, writer: &mut Vec<u8>) -> (r: Result<(), EncodeError>) {
        writer.write_string(*self)
    }
}

impl Encoder for Vec<u8> {
    open spec fn spec_encode(v: Seq<u8>) -> Seq<u8> {
        be_u32(v.len() as u32) + v
    }

    open spec fn spec_encodable(v: Seq<u8>) -> bool {
        v.len() <= u32::MAX
    }

    fn encode(&self, writer: &mut Vec<u8>) -> (r: Result<(), EncodeError>) {
        proof {
            assert(self.deep_view() =~= self@);
        }
        if self.len() > u32::MAX as usize {
            return Err(EncodeError::TryFromInt);
        }
        push_u32(writer, self.len() as u32);
        push_all(writer, self.as_slice());
        assert(writer@ =~= old(writer)@ + Self::spec_encode(self.deep_view()));
        Ok(())
    }
}

impl Encoder for Vec<String> {
    open spec fn spec_encode(v: Seq<Seq<char>>) -> Seq<u8> {
        be_u32(v.len() as u32) + strings_wire(v)
    }

    open spec fn spec_encodable(v: Seq<Seq<char>>) -> bool {
        v.len() <= u32::MAX && forall|i: int| 0 <= i < v.len() ==> #[trigger] string_fits(v[i])
    }

    fn encode(&self, writer: &mut Vec<u8>) -> (r: Result<(), EncodeError>) {
        let ghost v = self.deep_view();
        if self.len() > u32::MAX as usize {
            return Err(EncodeError::TryFromInt);
        }
        let mut i: usize = 0;
        while i < self.len()
            invariant
                i <= self@.len(),
                v == self.deep_view(),
                forall|j: int| 0 <= j < i ==> #[trigger] string_fits(v[j]),
            decreases self@.len() - i,
        {
            assert(v[i as int] == self[i as int]@);
            if self[i].as_str().as_bytes().len() > u32::MAX as usize {
                assert(!string_fits(v[i as int]));
                return Err(EncodeError::TryFromInt);
            }
            i = i + 1;
        }
        push_u32(writer, self.len() as u32);
        let ghost start = writer@;
        let mut k: usize = 0;
        while k < self.len()
            invariant
                k <= self@.len(),
                v == self.deep_view(),
                Self::spec_encodable(v),
                writer@ == start + strings_wire(v.subrange(0, k as int)),
            decreases self@.len() - k,
        {
            let w = writer.write_string(self[k].as_str());
            assert(v[k as int] == self[k as int]@);
            assert(string_fits(v[k as int]));
            assert(v.subrange(0, k + 1).drop_last() =~= v.subrange(0, k as int));
            k = k + 1;
        }
        assert(v.subrange(0, k as int) =~= v);
        assert(writer@ =~= old(writer)@ + Self::spec_encode(v));
        Ok(())
    }
}

impl<T: Encoder> Encoder for Option<T> {
    /// An absent value is one zero byte; a present one is its own encoding. The two forms
    /// collide when the present value's encoding itself starts with a zero byte.
    open spec fn spec_encode(v: Option<T::V>) -> Seq<u8> {
        match v {
            Some(x) => T::spec_encode(x),
            None => seq![0u8],
        }
    }

    open spec fn spec_encodable(v: Option<T::V>) -> bool {
        match v {
            Some(x) => T::spec_encodable(x),
            None => true,
        }
    }

    fn encode(&self, writer: &mut Vec<u8>) -> (r: Result<(), EncodeError>) {
        match self {
            Some(val) => val.encode(writer),
            None => 0u8.encode(writer),
        }
    }
}

} // verus!
