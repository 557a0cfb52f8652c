//! A reader for PNG files: signature check, `IHDR` header decoding and a walk over the
//! chunks that follow, each decoded into a typed value.

pub mod bytes;
pub mod gui;
pub mod inflate;
pub mod laws;
pub mod png;
pub mod render;
pub mod render_laws;

use vstd::prelude::*;

verus! {

/// Whether `file_header` is exactly the eight-byte PNG signature.
pub fn is_png_file(file_header: &[u8]) -> (r: bool)
    ensures
        r == (file_header@ == png::SIGNATURE@),
{
    if file_header.len() != png::SIGNATURE_LENGTH {
        return false;
    }
    let mut i: usize = 0;
    while i < png::SIGNATURE_LENGTH
        invariant
            file_header@.len() == png::SIGNATURE@.len(),
            i <= png::SIGNATURE_LENGTH,
            forall|k: int| 0 <= k < i ==> file_header@[k] == png::SIGNATURE@[k],
        decreases png::SIGNATURE_LENGTH - i,
    {
        if file_header[i] != png::SIGNATURE[i] {
            return false;
        }
        i = i + 1;
    }
    assert(file_header@ =~= png::SIGNATURE@);
    true
}

} // verus!
