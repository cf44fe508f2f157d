//! The values that carry messages: four bytes for an index, then the message.
use rustable::gatt::AttValue;
use vstd::prelude::*;
use vstd::slice::slice_subrange;

use crate::att::{att_bytes, att_eq, att_from};
use crate::bytes::{u32_from_le, u32_to_le};
#[allow(unused_imports)]
use crate::bytes::{le_bytes4, le_round_trip4, le_value4};

verus! {

/// The number of bytes in front of a message.
pub const HEADER_LEN: usize = 4;

/// The longest message that a value carries.
pub const MAX_MSG_LEN: usize = 508;

/// The header of a value that carries no index.
pub open spec fn blank_header() -> Seq<u8> {
    seq![0u8, 0u8, 0u8, 0u8]
}

/// The bytes that carry `msg`, before they get an index.
pub open spec fn framed(msg: Seq<u8>) -> Seq<u8> {
    blank_header() + msg
}

/// The bytes of a frame with `index` in its header.
pub open spec fn stamped(frame: Seq<u8>, index: u32) -> Seq<u8> {
    le_bytes4(index as nat) + frame.skip(HEADER_LEN as int)
}

/// The message in the bytes of a frame.
pub open spec fn payload_of(frame: Seq<u8>) -> Seq<u8> {
    frame.skip(HEADER_LEN as int)
}

/// The header of the bytes of a frame.
pub open spec fn header_of(frame: Seq<u8>) -> Seq<u8> {
    frame.take(HEADER_LEN as int)
}

/// A message comes out of the frame it was put in, whether or not the frame
/// was given an index, and the header of the frame names the index.
pub proof fn frame_round_trip(msg: Seq<u8>, index: u32)
    ensures
        payload_of(framed(msg)) == msg,
        payload_of(stamped(framed(msg), index)) == msg,
        header_of(stamped(framed(msg), index)) == le_bytes4(index as nat),
        le_value4(header_of(stamped(framed(msg), index))) == index,
{
    le_round_trip4(index as nat);
    assert(payload_of(framed(msg)) =~= msg);
    assert(payload_of(stamped(framed(msg), index)) =~= msg);
    assert(header_of(stamped(framed(msg), index)) =~= le_bytes4(index as nat));
}

/// A value with a header.
pub struct Frame {
    val: AttValue,
}

impl View for Frame {
    type V = Seq<u8>;

    closed spec fn view(&self) -> Seq<u8> {
        att_bytes(self.val)
    }
}

impl Frame {
    #[verifier::type_invariant]
    spec fn has_header(&self) -> bool {
        att_bytes(self.val).len() >= HEADER_LEN
    }

    /// A frame without a message.
    pub fn empty() -> (r: Self)
        ensures
            r@ == blank_header(),
    {
        let val = AttValue::new(HEADER_LEN);
        assert(att_bytes(val) =~= blank_header());
        Frame { val }
    }

    /// The frame for a message, of which no more than [`MAX_MSG_LEN`] bytes
    /// are taken.
    pub fn truncating(msg: &[u8]) -> (r: Self)
        ensures
            r@ == framed(
                msg@.take(
                    if msg@.len() <= MAX_MSG_LEN {
                        msg@.len() as int
                    } else {
                        MAX_MSG_LEN as int
                    },
                ),
            ),
    {
        let len = if msg.len() <= MAX_MSG_LEN {
            msg.len()
        } else {
            MAX_MSG_LEN
        };
        let mut val = AttValue::new(HEADER_LEN);
        let part = slice_subrange(msg, 0, len);
        assert(part@ =~= msg@.take(len as int));
        val.update(part, HEADER_LEN);
        assert(att_bytes(val) =~= framed(msg@.take(len as int)));
        Frame { val }
    }

    /// The frame for a message.
    pub fn new(msg: &[u8]) -> (r: Self)
        requires
            msg@.len() <= MAX_MSG_LEN,
        ensures
            r@ == framed(msg@),
    {
        let mut val = AttValue::new(HEADER_LEN);
        val.extend_from_slice(msg);
        assert(att_bytes(val) =~= framed(msg@));
        Frame { val }
    }

    /// Takes a value that is long enough for a header.
    pub fn from_value(val: AttValue) -> (r: Option<Self>)
        ensures
            r is Some <==> att_bytes(val).len() >= HEADER_LEN,
            r matches Some(frame) ==> frame@ == att_bytes(val),
    {
        if val.as_slice().len() < HEADER_LEN {
            None
        } else {
            Some(Frame { val })
        }
    }

    /// The bytes as they are sent.
    pub fn into_value(self) -> (r: AttValue)
        ensures
            att_bytes(r) == self@,
            att_bytes(r).len() >= HEADER_LEN,
    {
        proof {
            use_type_invariant(&self);
        }
        self.val
    }

    /// The frame with `index` in its header.
    pub fn stamp(self, index: u32) -> (r: Self)
        ensures
            r@ == stamped(self@, index),
    {
        proof {
            use_type_invariant(&self);
        }
        let bytes = u32_to_le(index);
        let ghost before = self@;
        let mut val = self.val;
        let target = val.as_mut_slice();
        target[0] = bytes[0];
        target[1] = bytes[1];
        target[2] = bytes[2];
        target[3] = bytes[3];
        assert(att_bytes(val) =~= stamped(before, index));
        Frame { val }
    }

    /// The message.
    pub fn payload(&self) -> (r: AttValue)
        ensures
            att_bytes(r) == payload_of(self@),
    {
        proof {
            use_type_invariant(self);
        }
        let bytes = self.val.as_slice();
        let part = slice_subrange(bytes, HEADER_LEN, bytes.len());
        assert(part@ =~= payload_of(self@));
        att_from(part)
    }

    /// What acknowledges the frame: its header.
    pub fn ack(&self) -> (r: AttValue)
        ensures
            att_bytes(r) == header_of(self@),
    {
        proof {
            use_type_invariant(self);
        }
        let mut val = self.val.clone();
        val.resize(HEADER_LEN, 0);
        assert(att_bytes(val) =~= header_of(self@));
        val
    }

    /// The header.
    pub fn header(&self) -> (r: AttValue)
        ensures
            att_bytes(r) == header_of(self@),
    {
        proof {
            use_type_invariant(self);
        }
        let part = slice_subrange(self.val.as_slice(), 0, HEADER_LEN);
        assert(part@ =~= header_of(self@));
        att_from(part)
    }

    /// Whether the frame holds neither an index nor a message.
    pub fn is_blank(&self) -> (r: bool)
        ensures
            r == (self@ == blank_header()),
    {
        let blank = AttValue::new(HEADER_LEN);
        assert(att_bytes(blank) =~= blank_header());
        att_eq(&self.val, &blank)
    }
}

/// The index that a value acknowledges: the value is a bare header, and zero
/// stands for no index in particular.
pub open spec fn ack_of(bytes: Seq<u8>) -> Option<nat> {
    if bytes.len() == HEADER_LEN {
        Some(le_value4(bytes))
    } else {
        None
    }
}

/// Reads an acknowledgement.
pub fn read_ack(val: &AttValue) -> (r: Option<u32>)
    ensures
        r is Some <==> ack_of(att_bytes(*val)) is Some,
        r matches Some(index) ==> ack_of(att_bytes(*val)) == Some(index as nat),
{
    let bytes = val.as_slice();
    if bytes.len() != HEADER_LEN {
        return None;
    }
    let index = u32_from_le(bytes, 0);
    assert(bytes@.subrange(0, 4) =~= bytes@);
    Some(index)
}

} // verus!
