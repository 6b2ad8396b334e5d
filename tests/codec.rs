use wireproto::decoder::{Cursor, Decoder, DecoderReadExt};
use wireproto::encoder::{Encoder, EncoderWriteExt};
use wireproto::errors::{DecodeError, EncodeError};
use wireproto::frame::prepare_response;
use wireproto::messages::{
    AuthenticationRequest, AuthenticationResponse, KeepAliveRequest, KeepAliveResponse,
    ReceiveFromStream, SystemPacket,
};
use wireproto::types::Hwid;

fn encoded<T: Encoder>(v: &T) -> Vec<u8> {
    let mut out = Vec::new();
    v.encode(&mut out).unwrap();
    out
}

#[test]
fn integers_are_big_endian() {
    assert_eq!(encoded(&0x1234u16), vec![0x12, 0x34]);
    assert_eq!(encoded(&0x01020304u32), vec![1, 2, 3, 4]);
    assert_eq!(encoded(&-1i32), vec![0xff; 4]);
    assert_eq!(encoded(&-2i16), vec![0xff, 0xfe]);
    assert_eq!(encoded(&0x0102030405060708u64), vec![1, 2, 3, 4, 5, 6, 7, 8]);
    assert_eq!(encoded(&i64::MIN), vec![0x80, 0, 0, 0, 0, 0, 0, 0]);
    assert_eq!(encoded(&-5i8), vec![0xfb]);
    assert_eq!(encoded(&7u8), vec![7]);
}

#[test]
fn integers_round_trip() {
    for v in [0i64, -1, 1, i64::MAX, i64::MIN, 1_700_000_000] {
        let mut c = Cursor::new(encoded(&v));
        assert_eq!(i64::decode(&mut c).unwrap(), v);
        assert_eq!(c.pos, 8);
    }
    for v in [0u32, 1, u32::MAX, 0xdeadbeef] {
        let mut c = Cursor::new(encoded(&v));
        assert_eq!(u32::decode(&mut c).unwrap(), v);
    }
    for v in [i16::MIN, -1, 0, i16::MAX] {
        let mut c = Cursor::new(encoded(&v));
        assert_eq!(i16::decode(&mut c).unwrap(), v);
    }
    for v in [i32::MIN, -7, 0, i32::MAX] {
        let mut c = Cursor::new(encoded(&v));
        assert_eq!(i32::decode(&mut c).unwrap(), v);
    }
    let mut c = Cursor::new(encoded(&u64::MAX));
    assert_eq!(u64::decode(&mut c).unwrap(), u64::MAX);
    let mut c = Cursor::new(encoded(&0xabcdu16));
    assert_eq!(u16::decode(&mut c).unwrap(), 0xabcd);
    let mut c = Cursor::new(vec![0x80]);
    assert_eq!(i8::decode(&mut c).unwrap(), -128);
}

#[test]
fn short_input_is_an_io_error() {
    let mut c = Cursor::new(vec![1, 2, 3]);
    assert_eq!(u32::decode(&mut c).unwrap_err(), DecodeError::IO);
    assert_eq!(c.pos, 0);
    let mut c = Cursor::new(vec![]);
    assert_eq!(u8::decode(&mut c).unwrap_err(), DecodeError::IO);
    let mut c = Cursor::new(vec![0; 7]);
    assert_eq!(i64::decode(&mut c).unwrap_err(), DecodeError::IO);
}

#[test]
fn booleans() {
    assert_eq!(encoded(&true), vec![1]);
    assert_eq!(encoded(&false), vec![0]);
    let mut c = Cursor::new(vec![1, 0, 2]);
    assert!(bool::decode(&mut c).unwrap());
    assert!(!bool::decode(&mut c).unwrap());
    assert_eq!(bool::decode(&mut c).unwrap_err(), DecodeError::NonBoolValue);
}

#[test]
fn strings_carry_their_byte_length() {
    assert_eq!(encoded(&String::from("hi")), vec![0, 0, 0, 2, b'h', b'i']);
    assert_eq!(encoded(&String::new()), vec![0, 0, 0, 0]);
    assert_eq!(encoded(&"hi"), vec![0, 0, 0, 2, b'h', b'i']);
    let s = String::from("héllo ✓");
    let bytes = encoded(&s);
    assert_eq!(bytes.len(), 4 + s.len());
    assert_eq!(&bytes[0..4], &(s.len() as u32).to_be_bytes());
    let mut c = Cursor::new(bytes);
    assert_eq!(String::decode(&mut c).unwrap(), s);
}

#[test]
fn invalid_utf8_is_refused() {
    let mut c = Cursor::new(vec![0, 0, 0, 2, 0xff, 0xfe]);
    assert_eq!(String::decode(&mut c).unwrap_err(), DecodeError::FromUtf8);
}

#[test]
fn string_longer_than_input_is_an_io_error() {
    let mut c = Cursor::new(vec![0, 0, 0, 5, b'a']);
    assert_eq!(c.read_string().unwrap_err(), DecodeError::IO);
}

#[test]
fn write_string_then_read_it() {
    let mut sink: Vec<u8> = Vec::new();
    sink.write_string("abc").unwrap();
    sink.write_string("").unwrap();
    let mut c = Cursor::new(sink);
    assert_eq!(c.read_string().unwrap(), "abc");
    assert_eq!(c.read_string().unwrap(), "");
    assert_eq!(c.remaining(), 0);
}

#[test]
fn byte_arrays() {
    let v: Vec<u8> = vec![9, 8, 7];
    let bytes = encoded(&v);
    assert_eq!(bytes, vec![0, 0, 0, 3, 9, 8, 7]);
    let mut c = Cursor::new(bytes.clone());
    assert_eq!(c.read_byte_array().unwrap(), v);
    let mut c = Cursor::new(bytes);
    assert_eq!(Vec::<u8>::decode(&mut c).unwrap(), v);
}

#[test]
fn sequences_keep_their_order() {
    let v = vec![String::from("a"), String::from("bc"), String::new()];
    let bytes = encoded(&v);
    assert_eq!(&bytes[0..4], &[0, 0, 0, 3]);
    let mut c = Cursor::new(bytes);
    assert_eq!(Vec::<String>::decode(&mut c).unwrap(), v);
    let mut c = Cursor::new(vec![0, 0, 0, 2, 0, 0, 0, 1, 0, 0]);
    assert_eq!(Vec::<u32>::decode(&mut c).unwrap_err(), DecodeError::IO);
    let mut c = Cursor::new(vec![0, 0, 0, 2, 1, 3]);
    assert_eq!(Vec::<bool>::decode(&mut c).unwrap_err(), DecodeError::NonBoolValue);
}

#[test]
fn options_collide_on_a_leading_zero() {
    assert_eq!(encoded(&None::<u8>), vec![0]);
    assert_eq!(encoded(&Some(0u8)), vec![0]);
    assert_eq!(encoded(&Some(5u16)), vec![0, 5]);
}

#[test]
fn prepare_response_frames_a_payload() {
    assert_eq!(prepare_response(0x01, vec![0xaa, 0xbb]).unwrap(), vec![0, 0, 0, 3, 1, 0xaa, 0xbb]);
    assert_eq!(prepare_response(0x07, vec![]).unwrap(), vec![0, 0, 0, 1, 7]);
}

#[test]
fn encode_error_variants_exist() {
    assert_ne!(EncodeError::IO, EncodeError::TryFromInt);
}

#[test]
fn messages_round_trip() {
    let req = AuthenticationRequest { nonce: String::from("ñonce-ü") };
    let mut c = Cursor::new(encoded(&req));
    assert_eq!(AuthenticationRequest::decode(&mut c).unwrap().nonce, req.nonce);

    let ka = KeepAliveRequest { timestamp: -42 };
    assert_eq!(KeepAliveRequest::from_bytes(&encoded(&ka)).unwrap().timestamp, -42);

    let resp = AuthenticationResponse {
        hwid: Hwid { cpu_id: String::from("cpuA"), system_id: String::new() },
        nonce: String::from("N1"),
    };
    let back = AuthenticationResponse::from_bytes(&encoded(&resp)).unwrap();
    assert_eq!(back.hwid.cpu_id, "cpuA");
    assert_eq!(back.hwid.system_id, "");
    assert_eq!(back.nonce, "N1");

    let kr = KeepAliveResponse { timestamp: i64::MAX };
    assert_eq!(KeepAliveResponse::from_bytes(&encoded(&kr)).unwrap().timestamp, i64::MAX);
}

#[test]
fn hwid_fields_in_order() {
    let h = Hwid { cpu_id: String::from("c"), system_id: String::from("s") };
    assert_eq!(encoded(&h), vec![0, 0, 0, 1, b'c', 0, 0, 0, 1, b's']);
    let mut c = Cursor::new(encoded(&h));
    let back = Hwid::decode(&mut c).unwrap();
    assert_eq!(back.cpu_id, "c");
    assert_eq!(back.system_id, "s");
}

#[test]
fn message_frames() {
    let f = AuthenticationRequest { nonce: String::from("N1") }.to_bytes().unwrap();
    assert_eq!(f, vec![0, 0, 0, 7, 0x00, 0, 0, 0, 2, b'N', b'1']);
    let f = KeepAliveRequest { timestamp: 1 }.to_bytes().unwrap();
    assert_eq!(f, vec![0, 0, 0, 9, 0x01, 0, 0, 0, 0, 0, 0, 0, 1]);
    let f = KeepAliveResponse { timestamp: 2 }.to_bytes().unwrap();
    assert_eq!(f[4], 0x01);
    let f = AuthenticationResponse {
        hwid: Hwid { cpu_id: String::new(), system_id: String::new() },
        nonce: String::new(),
    }
    .to_bytes()
    .unwrap();
    assert_eq!(f, vec![0, 0, 0, 13, 0x00, 0, 0, 0, 0, 0, 0, 0, 0, 0, 0, 0, 0]);
}

#[test]
fn fresh_authentication_request_has_a_sixteen_character_nonce() {
    let a = AuthenticationRequest::new().unwrap();
    let b = AuthenticationRequest::new().unwrap();
    assert_eq!(a.nonce.chars().count(), 16);
    assert_ne!(a.nonce, b.nonce);
}

#[test]
fn fresh_keep_alive_request_uses_the_clock() {
    let k = KeepAliveRequest::new().unwrap();
    assert!(k.timestamp > 1_600_000_000);
    assert_eq!(KeepAliveRequest::at(5).unwrap().timestamp, 5);
    assert!(KeepAliveRequest::at(u64::MAX).is_none());
}
