use vstd::prelude::*;

verus! {

/// The kind of a bit-level fault.
#[derive(Clone, Copy, Debug, PartialEq, Eq, Structural)]
pub enum ErrorType {
    /// The bit reads 0 whatever was written.
    Stuck0,
    /// The bit reads 1 whatever was written.
    Stuck1,
    /// The bit is inverted once.
    Flip,
    /// No fault.
    NoFault,
}

/// The fault kind behind a numeric code: 0, 1, 2 and 3 stand for stuck-at-0,
/// stuck-at-1, bit flip and no fault.
pub open spec fn error_type_of(code: int) -> ErrorType {
    if code == 0 {
        ErrorType::Stuck0
    } else if code == 1 {
        ErrorType::Stuck1
    } else if code == 2 {
        ErrorType::Flip
    } else {
        ErrorType::NoFault
    }
}

/// Whether `code` names a fault kind.
pub open spec fn valid_error_code(code: int) -> bool {
    0 <= code <= 3
}

/// The one-hot mask of bit `position`.
pub open spec fn bit_mask(position: u8) -> u64 {
    1u64 << (position as u64)
}

/// `value` with the fault `error` at bit `position`.
pub open spec fn embed_spec(value: u64, error: ErrorType, position: u8) -> u64 {
    match error {
        ErrorType::Stuck0 => value & !bit_mask(position),
        ErrorType::Stuck1 => value | bit_mask(position),
        ErrorType::Flip => value ^ bit_mask(position),
        ErrorType::NoFault => value,
    }
}

impl ErrorType {
    /// The fault kind of a numeric code (see [`error_type_of`]).
    pub fn from_index(code: i32) -> (r: ErrorType)
        requires
            valid_error_code(code as int),
        ensures
            r == error_type_of(code as int),
    {
        if code == 0 {
            ErrorType::Stuck0
        } else if code == 1 {
            ErrorType::Stuck1
        } else if code == 2 {
            ErrorType::Flip
        } else {
            ErrorType::NoFault
        }
    }
}

/// Sets bit `position` of `value` to 1.
pub fn set_bit(value: u64, position: u8) -> (r: u64)
    requires
        position < 64,
    ensures
        r == value | bit_mask(position),
{
    let bit_mask = 1u64 << (position as u64);
    value | bit_mask
}

/// Sets bit `position` of `value` to 0.
pub fn unset_bit(value: u64, position: u8) -> (r: u64)
    requires
        position < 64,
    ensures
        r == value & !bit_mask(position),
{
    let bit_mask = !(1u64 << (position as u64));
    value & bit_mask
}

/// Inverts bit `position` of `value`.
pub fn flip_bit(value: u64, position: u8) -> (r: u64)
    requires
        position < 64,
    ensures
        r == value ^ bit_mask(position),
{
    let bit_mask = 1u64 << (position as u64);
    value ^ bit_mask
}

/// Applies the fault `error` to bit `position` of the bit pattern `value`.
/// No numeric check is made: a fault may turn a number into an infinity or a NaN.
pub fn embed_error(value: u64, error: ErrorType, position: u8) -> (r: u64)
    requires
        position < 64,
    ensures
        r == embed_spec(value, error, position),
{
    match error {
        ErrorType::NoFault => value,
        ErrorType::Stuck0 => unset_bit(value, position),
        ErrorType::Stuck1 => set_bit(value, position),
        ErrorType::Flip => flip_bit(value, position),
    }
}

/// Applies the fault with numeric code `error_type` (see [`error_type_of`]) to
/// a stored value, in place.
pub fn weight_fault(weight: &mut u64, error_type: i32, position: u8)
    requires
        valid_error_code(error_type as int),
        position < 64,
    ensures
        *final(weight) == embed_spec(*old(weight), error_type_of(error_type as int), position),
{
    *weight = embed_error(*weight, ErrorType::from_index(error_type), position);
}

/// Stuck-at-1 written over stuck-at-0 on the same bit gives stuck-at-1: the
/// last write to a bit wins.
pub proof fn lemma_stuck_last_write_wins(value: u64, position: u8)
    requires
        position < 64,
    ensures
        embed_spec(embed_spec(value, ErrorType::Stuck0, position), ErrorType::Stuck1, position)
            == embed_spec(value, ErrorType::Stuck1, position),
        embed_spec(embed_spec(value, ErrorType::Stuck1, position), ErrorType::Stuck0, position)
            == embed_spec(value, ErrorType::Stuck0, position),
{
    let p = position as u64;
    assert((value & !(1u64 << p)) | (1u64 << p) == value | (1u64 << p)) by (bit_vector);
    assert((value | (1u64 << p)) & !(1u64 << p) == value & !(1u64 << p)) by (bit_vector);
}

/// A bit flip applied twice gives back the bit pattern it started from.
pub proof fn lemma_flip_involution(value: u64, position: u8)
    requires
        position < 64,
    ensures
        embed_spec(embed_spec(value, ErrorType::Flip, position), ErrorType::Flip, position)
            == value,
{
    let p = position as u64;
    assert((value ^ (1u64 << p)) ^ (1u64 << p) == value) by (bit_vector);
}

/// A stuck-at fault applied twice is the same as applied once.
pub proof fn lemma_stuck_idempotent(value: u64, error: ErrorType, position: u8)
    requires
        position < 64,
        error == ErrorType::Stuck0 || error == ErrorType::Stuck1,
    ensures
        embed_spec(embed_spec(value, error, position), error, position)
            == embed_spec(value, error, position),
{
    let p = position as u64;
    assert((value & !(1u64 << p)) & !(1u64 << p) == value & !(1u64 << p)) by (bit_vector);
    assert((value | (1u64 << p)) | (1u64 << p) == value | (1u64 << p)) by (bit_vector);
}

} // verus!
