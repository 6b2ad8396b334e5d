use vstd::prelude::*;
use crate::bytes::be_u32;
use crate::encoder::{push_all, push_u32};
use crate::errors::EncodeError;

verus! {

/// One frame: `u32` big-endian count of the tag and payload bytes, the tag, the payload.
pub open spec fn frame_wire(tag: u8, payload: Seq<u8>) -> Seq<u8> {
    be_u32((payload.len() + 1) as u32) + seq![tag] + payload
}

/// Frames `data` under the tag `event_id`; fails when the frame's length does not fit a `u32`.
pub fn prepare_response(event_id: u8, data: Vec<u8>) -> (r: Result<Vec<u8>, EncodeError>)
    ensures
        r is Ok <==> data@.len() + 1 <= u32::MAX,
        r matches Ok(b) ==> b@ == frame_wire(event_id, data@),
        r is Err ==> r->Err_0 == EncodeError::TryFromInt,
{
    if data.len() >= u32::MAX as usize {
        return Err(EncodeError::TryFromInt);
    }
    let mut buffer: Vec<u8> = Vec::new();
    push_u32(&mut buffer, (data.len() + 1) as u32);
    buffer.push(event_id);
    push_all(&mut buffer, data.as_slice());
    assert(buffer@ =~= frame_wire(event_id, data@));
    Ok(buffer)
}

} // verus!
