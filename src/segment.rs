//! Finding the segment whose start holds the vector table.

use vstd::prelude::*;

verus! {

/// The ELF program-header type of a loadable segment.
pub const PT_LOAD: u32 = 1;

/// What the locator reads of one ELF program header.
#[derive(Clone, Copy, Debug, PartialEq, Eq, Structural)]
pub struct SegmentDescriptor {
    /// Segment type (`p_type`).
    pub p_type: u32,
    /// Physical load address (`p_paddr`).
    pub p_paddr: u64,
    /// Offset of the segment's first byte in the file (`p_offset`).
    pub p_offset: u64,
}

/// A program header as plain values: (type, physical address, file offset).
pub type HeaderTriple = (u32, u64, u64);

impl SegmentDescriptor {
    pub open spec fn triple(self) -> HeaderTriple {
        (self.p_type, self.p_paddr, self.p_offset)
    }

    /// Whether this is a loadable segment placed at physical address zero.
    pub fn holds_vector_table(&self) -> (r: bool)
        ensures
            r == is_vector_table_segment(self.triple()),
    {
        self.p_type == PT_LOAD && self.p_paddr == 0
    }
}

/// The program headers as plain values, in the same order.
pub open spec fn triples_of(segs: Seq<SegmentDescriptor>) -> Seq<HeaderTriple> {
    segs.map_values(|s: SegmentDescriptor| s.triple())
}

/// A loadable segment placed at physical address zero.
pub open spec fn is_vector_table_segment(h: HeaderTriple) -> bool {
    h.0 == PT_LOAD && h.1 == 0
}

/// `i` is the first index whose header is a loadable segment at physical address zero.
pub open spec fn is_first_match(hs: Seq<HeaderTriple>, i: int) -> bool {
    &&& 0 <= i < hs.len()
    &&& is_vector_table_segment(hs[i])
    &&& forall|j: int| 0 <= j < i ==> !is_vector_table_segment(#[trigger] hs[j])
}

/// The file offset of the first loadable segment at physical address zero, if any.
pub open spec fn vector_table_offset(hs: Seq<HeaderTriple>) -> Option<u64> {
    if exists|i: int| is_first_match(hs, i) {
        Some(hs[choose|i: int| is_first_match(hs, i)].2)
    } else {
        None
    }
}

/// There is at most one first match.
pub proof fn lemma_first_match_unique(hs: Seq<HeaderTriple>, i: int, k: int)
    requires
        is_first_match(hs, i),
        is_first_match(hs, k),
    ensures
        i == k,
{
    if i < k {
        assert(!is_vector_table_segment(hs[i]));
    } else if k < i {
        assert(!is_vector_table_segment(hs[k]));
    }
}

/// Scans the program headers in order and returns the file offset of the
/// first loadable segment whose physical address is zero, or `None` when
/// there is no such segment.
pub fn locate_vector_table(segs: &[SegmentDescriptor]) -> (r: Option<u64>)
    ensures
        r == vector_table_offset(triples_of(segs@)),
{
    let ghost hs = triples_of(segs@);
    let mut i: usize = 0;
    while i < segs.len()
        invariant
            i <= segs@.len(),
            hs == triples_of(segs@),
            hs.len() == segs@.len(),
            forall|j: int| 0 <= j < i ==> !is_vector_table_segment(#[trigger] hs[j]),
        decreases segs@.len() - i,
    {
        if segs[i].holds_vector_table() {
            proof {
                assert(is_first_match(hs, i as int));
                let k = choose|k: int| is_first_match(hs, k);
                lemma_first_match_unique(hs, i as int, k);
            }
            return Some(segs[i].p_offset);
        }
        i = i + 1;
    }
    proof {
        assert forall|k: int| !is_first_match(hs, k) by {
            if 0 <= k < hs.len() {
                assert(!is_vector_table_segment(hs[k]));
            }
        }
    }
    None
}

} // verus!
