//! The attribute values that travel over a GATT characteristic.
use rustable::gatt::AttValue;
use vstd::prelude::*;

verus! {

/// `rustable::gatt::AttValue`: at most [`MAX_VALUE_LEN`] bytes.
#[verifier::external_type_specification]
#[verifier::external_body]
pub struct ExAttValue(AttValue);

/// The most bytes an attribute value holds.
pub const MAX_VALUE_LEN: usize = 512;

/// The bytes that an attribute value holds.
pub uninterp spec fn att_bytes(v: AttValue) -> Seq<u8>;

/// `AttValue::new` gives a value of `len` zero bytes. It panics past the
/// capacity.
pub assume_specification[ AttValue::new ](len: usize) -> (r: AttValue)
    requires
        len <= MAX_VALUE_LEN,
    ensures
        att_bytes(r) == Seq::new(len as nat, |i: int| 0u8),
;

/// `AttValue::as_slice` shows the bytes, never more than the capacity.
pub assume_specification[ AttValue::as_slice ](v: &AttValue) -> (r: &[u8])
    ensures
        r@ == att_bytes(*v),
        r@.len() <= MAX_VALUE_LEN,
;

/// `AttValue::as_mut_slice` gives the bytes to write to; the number of bytes
/// stays.
pub assume_specification[ AttValue::as_mut_slice ](v: &mut AttValue) -> (r: &mut [u8])
    ensures
        r@ == att_bytes(*old(v)),
        final(r)@ == att_bytes(*final(v)),
;

/// `AttValue::resize` cuts the value to `new_len` bytes, or fills it up with
/// `value`. It panics past the capacity.
pub assume_specification[ AttValue::resize ](v: &mut AttValue, new_len: usize, value: u8)
    requires
        new_len <= MAX_VALUE_LEN,
    ensures
        att_bytes(*final(v)).len() == new_len,
        forall|i: int|
            0 <= i < new_len ==> att_bytes(*final(v))[i] == (if i < att_bytes(*old(v)).len() {
                att_bytes(*old(v))[i]
            } else {
                value
            }),
;

/// `AttValue::update` writes `slice` from `offset` on and ends the value
/// behind it. It panics where `offset` lies past the end, and past the
/// capacity.
pub assume_specification[ AttValue::update ](v: &mut AttValue, slice: &[u8], offset: usize)
    requires
        offset <= att_bytes(*old(v)).len(),
        offset + slice@.len() <= MAX_VALUE_LEN,
    ensures
        att_bytes(*final(v)) == att_bytes(*old(v)).take(offset as int) + slice@,
;

/// `AttValue::push` appends one byte. It panics on a full value.
pub assume_specification[ AttValue::push ](v: &mut AttValue, byte: u8)
    requires
        att_bytes(*old(v)).len() < MAX_VALUE_LEN,
    ensures
        att_bytes(*final(v)) == att_bytes(*old(v)).push(byte),
;

/// `AttValue::extend_from_slice` appends `slice`. It panics past the capacity.
pub assume_specification[ AttValue::extend_from_slice ](v: &mut AttValue, slice: &[u8])
    requires
        att_bytes(*old(v)).len() + slice@.len() <= MAX_VALUE_LEN,
    ensures
        att_bytes(*final(v)) == att_bytes(*old(v)) + slice@,
;

/// `AttValue::clone` copies the bytes.
pub assume_specification[ <AttValue as Clone>::clone ](v: &AttValue) -> (r: AttValue)
    ensures
        att_bytes(r) == att_bytes(*v),
;

/// `AttValue::from` makes a value of the bytes of a slice. It panics past the
/// capacity.
#[verifier::external_body]
pub(crate) fn att_from(slice: &[u8]) -> (r: AttValue)
    requires
        slice@.len() <= MAX_VALUE_LEN,
    ensures
        att_bytes(r) == slice@,
{
    AttValue::from(slice)
}

/// `==` of two values says whether they hold the same bytes.
#[verifier::external_body]
pub(crate) fn att_eq(a: &AttValue, b: &AttValue) -> (r: bool)
    ensures
        r == (att_bytes(*a) == att_bytes(*b)),
{
    a == b
}

} // verus!
