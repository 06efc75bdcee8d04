//! Text for the diagnostic sink.
//!
//! The print calls hand the kernel an integer or the bytes of a C string.
//! This module turns either into the text that is written.

use vstd::prelude::*;
use vstd::utf8::{decode_utf8, valid_utf8};

verus! {

/// The character of the decimal digit `digit`.
pub open spec fn digit_char(digit: nat) -> char {
    if digit == 0 {
        '0'
    } else if digit == 1 {
        '1'
    } else if digit == 2 {
        '2'
    } else if digit == 3 {
        '3'
    } else if digit == 4 {
        '4'
    } else if digit == 5 {
        '5'
    } else if digit == 6 {
        '6'
    } else if digit == 7 {
        '7'
    } else if digit == 8 {
        '8'
    } else {
        '9'
    }
}

/// The decimal digits of `value`, most significant first, without leading
/// zeros; `"0"` for zero.
pub open spec fn decimal(value: nat) -> Seq<char>
    decreases value,
{
    if value < 10 {
        seq![digit_char(value)]
    } else {
        decimal(value / 10).push(digit_char(value % 10))
    }
}

/// Most characters that the decimal text of a `u32` has.
pub const DECIMAL_MAX: usize = 10;

/// The decimal text of a `u32`: ASCII digits in a buffer of fixed size, so
/// that the kernel needs no allocator to print a number.
#[derive(Copy, Clone, PartialEq, Eq, Debug)]
pub struct DecimalText {
    digits: [u8; 10],
    len: usize,
}

impl View for DecimalText {
    type V = Seq<char>;

    closed spec fn view(&self) -> Seq<char> {
        Seq::new(self.len as nat, |i: int| self.digits@[i] as char)
    }
}

impl DecimalText {
    #[verifier::type_invariant]
    spec fn fits(&self) -> bool {
        self.len <= DECIMAL_MAX
    }

    /// The text as bytes, one for each character.
    pub fn as_bytes(&self) -> (bytes: &[u8])
        ensures
            bytes@.len() == self@.len(),
            forall|i: int| 0 <= i < bytes@.len() ==> bytes@[i] as char == self@[i],
    {
        proof {
            use_type_invariant(self);
        }
        vstd::slice::slice_subrange(self.digits.as_slice(), 0, self.len)
    }
}

/// No decimal text of a `u32` has more than `DECIMAL_MAX` characters.
pub proof fn lemma_decimal_fits(value: u32)
    ensures
        1 <= decimal(value as nat).len() <= DECIMAL_MAX,
{
    reveal_with_fuel(decimal, 11);
}

fn digit_byte(digit: u32) -> (byte: u8)
    requires
        digit < 10,
    ensures
        byte as char == digit_char(digit as nat),
{
    0x30u8 + digit as u8
}

fn put_decimal(digits: &mut [u8; 10], len: usize, value: u32) -> (end: usize)
    requires
        len + decimal(value as nat).len() <= DECIMAL_MAX,
    ensures
        end == len + decimal(value as nat).len(),
        forall|i: int| 0 <= i < len ==> final(digits)@[i] == old(digits)@[i],
        forall|i: int|
            len <= i < end ==> final(digits)@[i] as char == decimal(value as nat)[i - len],
    decreases value,
{
    let mut at = len;
    if value >= 10 {
        at = put_decimal(digits, len, value / 10);
    }
    digits[at] = digit_byte(value % 10);
    at + 1
}

/// The decimal representation of `value`.
pub fn integer_text(value: u32) -> (text: DecimalText)
    ensures
        text@ == decimal(value as nat),
{
    let mut digits = [0u8; 10];
    proof {
        lemma_decimal_fits(value);
    }
    let len = put_decimal(&mut digits, 0, value);
    let text = DecimalText { digits, len };
    assert(text@ =~= decimal(value as nat));
    text
}

/// Why bytes are not the text of a C string.
#[derive(Copy, Clone, PartialEq, Eq, Debug, Structural)]
pub enum TextError {
    /// The last byte is not the only zero byte.
    NotTerminated,
    /// The bytes before the terminator are not UTF-8.
    NotUtf8,
}

/// Whether `bytes` is a C string with its terminator: the last byte is the
/// only zero.
pub open spec fn nul_terminated(bytes: Seq<u8>) -> bool {
    &&& bytes.len() > 0
    &&& bytes.last() == 0
    &&& forall|i: int| 0 <= i < bytes.len() - 1 ==> bytes[i] != 0
}

/// `cstr_core::CStr`, a borrowed C string. Nothing is known of a value but
/// what `c_str_bytes` names.
#[verifier::external_type_specification]
#[verifier::external_body]
pub struct ExCStr(cstr_core::CStr);

/// `cstr_core::FromBytesWithNulError`, the refusal of
/// `CStr::from_bytes_with_nul`. It is only told from success.
#[verifier::external_type_specification]
#[verifier::external_body]
pub struct ExFromBytesWithNulError(cstr_core::FromBytesWithNulError);

/// `core::str::Utf8Error`, the refusal of `CStr::to_str`. It is only told
/// from success.
#[verifier::external_type_specification]
#[verifier::external_body]
pub struct ExUtf8Error(core::str::Utf8Error);

/// The bytes that a `cstr_core::CStr` holds, without its terminator: what
/// `CStr::to_bytes` returns.
pub uninterp spec fn c_str_bytes(s: &cstr_core::CStr) -> Seq<u8>;

/// `cstr_core::CStr::from_bytes_with_nul`. It accepts a slice exactly when
/// its last byte is its only zero byte, and the C string then holds the
/// bytes before that zero.
#[verifier::external_body]
fn c_str_from_bytes_with_nul(bytes: &[u8]) -> (r: Result<
    &cstr_core::CStr,
    cstr_core::FromBytesWithNulError,
>)
    ensures
        r is Ok <==> nul_terminated(bytes@),
        r matches Ok(s) ==> c_str_bytes(s) == bytes@.drop_last(),
{
    cstr_core::CStr::from_bytes_with_nul(bytes)
}

/// `cstr_core::CStr::to_str`. It succeeds exactly when the bytes of the C
/// string are valid UTF-8, and the text is then what they decode to.
#[verifier::external_body]
fn c_str_to_str(s: &cstr_core::CStr) -> (r: Result<&str, core::str::Utf8Error>)
    ensures
        r is Ok <==> valid_utf8(c_str_bytes(s)),
        r matches Ok(text) ==> text@ == decode_utf8(c_str_bytes(s)),
{
    s.to_str()
}

/// The text of the C string `bytes`, terminator included in `bytes`.
///
/// Fails with `NotTerminated` where the last byte is not the only zero
/// byte, and with `NotUtf8` where it is and the bytes before it are not
/// UTF-8.
pub fn c_string_text(bytes: &[u8]) -> (text: Result<&str, TextError>)
    ensures
        text is Ok <==> nul_terminated(bytes@) && valid_utf8(bytes@.drop_last()),
        text matches Ok(t) ==> t@ == decode_utf8(bytes@.drop_last()),
        text == Err::<&str, TextError>(TextError::NotTerminated) <==> !nul_terminated(bytes@),
        text == Err::<&str, TextError>(TextError::NotUtf8) <==> nul_terminated(bytes@)
            && !valid_utf8(bytes@.drop_last()),
{
    match c_str_from_bytes_with_nul(bytes) {
        Err(_) => Err(TextError::NotTerminated),
        Ok(s) => match c_str_to_str(s) {
            Err(_) => Err(TextError::NotUtf8),
            Ok(t) => Ok(t),
        },
    }
}

} // verus!
