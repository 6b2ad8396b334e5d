use vstd::prelude::*;
use crate::decoder::{parse_string, Cursor, Decoder};
use crate::encoder::{string_fits, string_wire, Encoder};
use crate::errors::{DecodeError, EncodeError};

verus! {

/// Host identity attached to an authentication response; opaque to the protocol.
#[derive(Clone, Debug)]
pub struct Hwid {
    pub cpu_id: String,
    pub system_id: String,
}

/// The characters of a `Hwid`'s two fields.
pub struct HwidView {
    pub cpu_id: Seq<char>,
    pub system_id: Seq<char>,
}

impl DeepView for Hwid {
    type V = HwidView;

    open spec fn deep_view(&self) -> HwidView {
        HwidView { cpu_id: self.cpu_id@, system_id: self.system_id@ }
    }
}

/// Whether `s` fits a string's `u32` length prefix.
pub fn fits_prefix(s: &String) -> (r: bool)
    ensures
        r == string_fits(s@),
{
    s.as_str().as_bytes().len() <= u32::MAX as usize
}

impl Encoder for Hwid {
    open spec fn spec_encode(v: HwidView) -> Seq<u8> {
        string_wire(v.cpu_id) + string_wire(v.system_id)
    }

    open spec fn spec_encodable(v: HwidView) -> bool {
        string_fits(v.cpu_id) && string_fits(v.system_id)
    }

    fn encode(&self, writer: &mut Vec<u8>) -> (r: Result<(), EncodeError>) {
        if !fits_prefix(&self.cpu_id) || !fits_prefix(&self.system_id) {
            return Err(EncodeError::TryFromInt);
        }
        let _ = self.cpu_id.encode(writer);
        let _ = self.system_id.encode(writer);
        assert(writer@ =~= old(writer)@ + Self::spec_encode(self.deep_view()));
        Ok(())
    }
}

impl Decoder for Hwid {
    open spec fn spec_decode(data: Seq<u8>) -> Result<(HwidView, nat), DecodeError> {
        match parse_string(data) {
            Ok((c, n)) => match parse_string(data.skip(n as int)) {
                Ok((s, m)) => Ok((HwidView { cpu_id: c, system_id: s }, n + m)),
                Err(e) => Err(e),
            },
            Err(e) => Err(e),
        }
    }

    fn decode(reader: &mut Cursor) -> (r: Result<Hwid, DecodeError>) {
        let cpu_id = match reader.take_string() {
            Ok(s) => s,
            Err(e) => return Err(e),
        };
        assert(reader.rest() =~= old(reader).rest().skip(reader.pos - old(reader).pos));
        let system_id = match reader.take_string() {
            Ok(s) => s,
            Err(e) => return Err(e),
        };
        Ok(Hwid { cpu_id, system_id })
    }
}

} // verus!
