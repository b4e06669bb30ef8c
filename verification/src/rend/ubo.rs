use vstd::prelude::*;

verus! {

/// Where the per-object slots of a uniform buffer lie: `object_count` slots of
/// `alignment` bytes each, slot `i` starting at byte `i * alignment`.
#[derive(PartialEq, Eq, Structural, Debug, Clone, Copy)]
pub struct UboLayout {
    pub alignment: u64,
    pub object_count: usize,
    pub element_size: u64,
}

impl UboLayout {
    /// The slots are wide enough for one element and the buffer's size fits in `u64`.
    pub open spec fn wf(&self) -> bool {
        &&& self.element_size <= self.alignment
        &&& self.object_count * self.alignment <= u64::MAX
    }

    /// The first byte of slot `i`.
    pub open spec fn spec_offset(&self, i: int) -> int {
        i * self.alignment
    }

    /// The layout of a uniform buffer for `object_count` elements of `element_size`
    /// bytes on a device whose uniform offsets must be multiples of
    /// `min_alignment`: each slot is as wide as the larger of the two.
    pub fn new(min_alignment: u64, element_size: u64, object_count: usize) -> (layout: UboLayout)
        requires
            object_count * (if min_alignment >= element_size {
                min_alignment
            } else {
                element_size
            }) <= u64::MAX,
        ensures
            layout.wf(),
            layout.alignment == (if min_alignment >= element_size {
                min_alignment
            } else {
                element_size
            }),
            layout.object_count == object_count,
            layout.element_size == element_size,
    {
        let alignment = if min_alignment >= element_size {
            min_alignment
        } else {
            element_size
        };
        UboLayout { alignment, object_count, element_size }
    }

    /// The size in bytes of the whole buffer.
    pub fn buffer_size(&self) -> (size: u64)
        requires
            self.wf(),
        ensures
            size == self.object_count * self.alignment,
    {
        proof {
            assert(self.object_count as u64 * self.alignment <= u64::MAX);
        }
        self.object_count as u64 * self.alignment
    }

    /// The first byte of slot `i`, where the element of object `i` is written.
    pub fn offset(&self, i: u64) -> (offset: u64)
        requires
            self.wf(),
            i < self.object_count,
        ensures
            offset == self.spec_offset(i as int),
            offset == i * self.alignment,
    {
        proof {
            assert(i * self.alignment <= self.object_count * self.alignment) by (nonlinear_arith)
                requires
                    i < self.object_count,
            ;
        }
        i * self.alignment
    }
}

/// The elements of two different objects never overlap, and every element lies
/// inside the buffer.
pub proof fn lemma_slots_disjoint(layout: UboLayout, i: int, j: int)
    requires
        layout.wf(),
        0 <= i < j < layout.object_count,
    ensures
        layout.spec_offset(i) + layout.element_size <= layout.spec_offset(j),
        layout.spec_offset(j) + layout.element_size <= layout.object_count * layout.alignment,
{
    assert(i * layout.alignment + layout.alignment <= j * layout.alignment) by (nonlinear_arith)
        requires
            i < j,
    ;
    assert(j * layout.alignment + layout.alignment <= layout.object_count * layout.alignment)
        by (nonlinear_arith)
        requires
            j < layout.object_count,
    ;
}

} // verus!
