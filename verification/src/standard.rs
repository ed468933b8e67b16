//! What two functions of the standard library are taken to do: the UTF-8
//! check behind `String::from_utf8`, and the hashing of a byte.

use vstd::prelude::*;
use vstd::utf8::{encode_utf8, valid_utf8};

verus! {

/// `std::string::FromUtf8Error`, taken as it is: nothing inside it is looked
/// at.
#[verifier::external_type_specification]
#[verifier::external_body]
pub struct ExFromUtf8Error(std::string::FromUtf8Error);

/// `String::from_utf8` succeeds exactly on byte vectors that are valid
/// UTF-8, and the string it returns holds the bytes of the vector.
pub assume_specification[ std::string::String::from_utf8 ](vec: Vec<u8>) -> (text: Result<
    std::string::String,
    std::string::FromUtf8Error,
>)
    ensures
        text is Ok <==> valid_utf8(vec@),
        text matches Ok(string) ==> encode_utf8(string@) == vec@,
;

/// `<u8 as Hash>::hash` feeds a byte to a hasher. Nothing is claimed of the
/// hasher afterwards.
pub assume_specification<H: core::hash::Hasher>[ <u8 as core::hash::Hash>::hash::<H> ](
    byte: &u8,
    state: &mut H,
);

} // verus!
