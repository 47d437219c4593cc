//! Signing a whole ELF firmware image in memory.

use vstd::prelude::*;

use crate::checksum::{sign_at, signed_at, WINDOW_LEN};
use crate::segment::{locate_vector_table, triples_of, vector_table_offset, HeaderTriple, SegmentDescriptor};

verus! {

/// Why an image could not be signed. No bytes are changed in any of these cases.
#[derive(Clone, Copy, Debug, PartialEq, Eq, Structural)]
pub enum SignError {
    /// The bytes are not an ELF object.
    NotElf,
    /// No loadable segment is placed at physical address zero.
    NotFound,
    /// The vector-table segment starts too close to the end of the file to
    /// hold the 32-byte window.
    WindowOutOfBounds,
}

/// The outcome of signing `image` whose program headers are `hs`: the result
/// and the bytes afterwards.
pub open spec fn sign_outcome(image: Seq<u8>, hs: Seq<HeaderTriple>) -> (
    Result<u64, SignError>,
    Seq<u8>,
) {
    match vector_table_offset(hs) {
        None => (Err(SignError::NotFound), image),
        Some(ofs) => if ofs + 32 <= image.len() {
            (Ok(ofs), signed_at(image, ofs as int))
        } else {
            (Err(SignError::WindowOutOfBounds), image)
        },
    }
}

/// Signs the vector table of `image`, whose program headers are `segments`:
/// locates the first loadable segment at physical address zero and stores the
/// signature into word 7 of the 32 bytes at its file offset. Returns that
/// offset. On failure the image is left as it was.
pub fn sign_image(image: &mut Vec<u8>, segments: &[SegmentDescriptor]) -> (r: Result<u64, SignError>)
    ensures
        (r, final(image)@) == sign_outcome(old(image)@, triples_of(segments@)),
{
    let ofs = match locate_vector_table(segments) {
        None => return Err(SignError::NotFound),
        Some(ofs) => ofs,
    };
    let len = image.len();
    if len < WINDOW_LEN || ofs > (len - WINDOW_LEN) as u64 {
        return Err(SignError::WindowOutOfBounds);
    }
    let start = ofs as usize;
    sign_at(image.as_mut_slice(), start);
    Ok(ofs)
}

/// The program headers that goblin reads from `bytes`, as (type, physical
/// address, file offset) in the order of the header table; `None` where goblin
/// does not accept the bytes as an ELF object.
pub uninterp spec fn elf_program_headers(bytes: Seq<u8>) -> Option<Seq<HeaderTriple>>;

/// Relies on goblin::Object::parse: it reads the object from the bytes alone,
/// and for an ELF object lists its program headers in table order.
#[verifier::external_body]
fn parse_program_headers(bytes: &[u8]) -> (r: Option<Vec<SegmentDescriptor>>)
    ensures
        r.is_some() == elf_program_headers(bytes@).is_some(),
        r.is_some() ==> triples_of(r.unwrap()@) == elf_program_headers(bytes@).unwrap(),
{
    match goblin::Object::parse(bytes) {
        Ok(goblin::Object::Elf(elf)) => Some(
            elf.program_headers.iter().map(
                |h| SegmentDescriptor { p_type: h.p_type, p_paddr: h.p_paddr, p_offset: h.p_offset },
            ).collect(),
        ),
        _ => None,
    }
}

/// Signs an ELF firmware image in memory: reads its program headers, then
/// signs as `sign_image` does. Returns the file offset of the signed window.
/// On failure the image is left as it was.
pub fn sign_elf(image: &mut Vec<u8>) -> (r: Result<u64, SignError>)
    ensures
        match elf_program_headers(old(image)@) {
            None => r == Err::<u64, SignError>(SignError::NotElf) && final(image)@ == old(image)@,
            Some(hs) => (r, final(image)@) == sign_outcome(old(image)@, hs),
        },
{
    let segments = match parse_program_headers(image.as_slice()) {
        None => return Err(SignError::NotElf),
        Some(segments) => segments,
    };
    sign_image(image, segments.as_slice())
}

} // verus!
