//! The result as it crosses a C boundary: an owned, NUL-terminated string
//! of decimal digits, made once and given up once.

use crate::decimal::{decimal_string, is_digit};
use crate::engine::{compute, lemma_rendered_sum_is_digits, sum_of_squares_spec};
use vstd::prelude::*;
use vstd::string::StrSliceExecFns;

verus! {

/// Whether `bytes` is a C string: it ends in a zero byte and holds no other.
pub open spec fn is_c_string(bytes: Seq<u8>) -> bool {
    &&& bytes.len() >= 1
    &&& bytes.last() == 0
    &&& forall|i: int| 0 <= i < bytes.len() - 1 ==> #[trigger] bytes[i] != 0
}

/// The C string of an ASCII text: one byte for each character, then the
/// terminating zero.
pub open spec fn c_string_of(text: Seq<char>) -> Seq<u8> {
    Seq::new(text.len(), |i: int| text[i] as u8).push(0u8)
}

/// An owned result string. The storage stays behind this type; what a
/// caller on the other side of the boundary sees is `as_bytes_with_nul`.
pub struct OutputHandle {
    bytes: Vec<u8>,
}

impl View for OutputHandle {
    type V = Seq<u8>;

    /// The bytes of the string, the terminating zero included.
    closed spec fn view(&self) -> Seq<u8> {
        self.bytes@
    }
}

impl OutputHandle {
    #[verifier::type_invariant]
    spec fn terminated(&self) -> bool {
        is_c_string(self.bytes@)
    }

    /// The string as it lies in memory. Every handle holds a C string.
    pub fn as_bytes_with_nul(&self) -> (bytes: &[u8])
        ensures
            bytes@ == self@,
            is_c_string(bytes@),
    {
        proof {
            use_type_invariant(self);
        }
        self.bytes.as_slice()
    }

    /// Gives the storage up to the caller, who owns it from then on.
    pub fn into_bytes_with_nul(self) -> (bytes: Vec<u8>)
        ensures
            bytes@ == self@,
            is_c_string(bytes@),
    {
        proof {
            use_type_invariant(&self);
        }
        self.bytes
    }
}

/// The sum of the squares of `elements` as an owned C string: the digits of
/// the sum in ASCII, then the terminating zero. Succeeds on every input.
pub fn sum_of_squares(elements: &[i32]) -> (handle: OutputHandle)
    ensures
        handle@ == c_string_of(decimal_string(sum_of_squares_spec(elements@))),
        is_c_string(handle@),
{
    let text = compute(elements);
    let chars = text.as_str();
    proof {
        lemma_rendered_sum_is_digits(elements@);
        assert(vstd::string::is_ascii(chars)) by {
            assert forall|i: int| 0 <= i < chars@.len() implies '\0' <= #[trigger] chars@[i]
                <= '\u{7f}' by {
                assert(is_digit(chars@[i]));
            }
        }
        vstd::string::is_ascii_spec_bytes(chars);
    }
    let mut bytes = chars.as_bytes_vec();
    bytes.push(0u8);
    proof {
        assert(bytes@ =~= c_string_of(text@));
        assert forall|i: int| 0 <= i < bytes@.len() - 1 implies #[trigger] bytes@[i] != 0 by {
            assert(is_digit(text@[i]));
        }
    }
    OutputHandle { bytes }
}

/// Takes a handle back and reclaims its storage; without a handle there is
/// nothing to do. The handle is moved in, so no handle is given up twice or
/// read afterwards.
pub fn free_string(handle: Option<OutputHandle>) {
    match handle {
        None => {},
        Some(owned) => {
            let _storage = owned.into_bytes_with_nul();
        },
    }
}

} // verus!
