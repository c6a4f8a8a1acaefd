//! Reading the elements that an accessor of a mesh file describes out of a
//! buffer of bytes.

use vstd::prelude::*;

verus! {

/// Where the elements of an accessor lie in their buffer.
#[derive(Clone, Copy, Debug, PartialEq, Eq, Structural)]
pub struct AccessorLayout {
    /// Where the view of the buffer begins.
    pub view_offset: usize,
    /// Where, within the view, the accessor begins.
    pub accessor_offset: usize,
    /// The number of elements.
    pub count: usize,
    /// The number of bytes of one element.
    pub size: usize,
    /// The distance between the starts of two elements, where the elements
    /// are interleaved with others.
    pub stride: Option<usize>,
}

impl AccessorLayout {
    /// The position of the first byte of the accessor in the buffer.
    pub open spec fn from(self) -> int {
        self.view_offset + self.accessor_offset
    }

    /// The position behind the last byte that is looked at.
    pub open spec fn to(self) -> int {
        self.view_offset + self.accessor_offset + self.count * self.size
    }

    /// The bytes that are looked at lie within a buffer of the given length,
    /// and where any byte is looked at, a stride is not zero.
    pub open spec fn spec_fits(self, buffer_length: nat) -> bool {
        &&& self.to() <= buffer_length
        &&& self.stride == Some(0usize) ==> self.count * self.size == 0
    }

    /// Whether the bytes that are looked at lie within a buffer of the given
    /// length, and the stride, if there is one, is not zero where any byte is
    /// looked at.
    pub fn fits(self, buffer_length: usize) -> (fits: bool)
        ensures
            fits == self.spec_fits(buffer_length as nat),
    {
        let from = match self.view_offset.checked_add(self.accessor_offset) {
            Some(from) => from,
            None => {
                return false;
            },
        };
        let length = match self.count.checked_mul(self.size) {
            Some(length) => length,
            None => {
                return false;
            },
        };
        if length > 0 {
            if let Some(stride) = self.stride {
                if stride == 0 {
                    return false;
                }
            }
        }
        match from.checked_add(length) {
            Some(to) => to <= buffer_length,
            None => false,
        }
    }
}

/// The bytes of a view that belong to the elements: of each run of `stride`
/// bytes the first `size`.
pub open spec fn strided(view: Seq<u8>, stride: int, size: int) -> Seq<u8>
    decreases view.len(),
{
    if view.len() == 0 {
        Seq::<u8>::empty()
    } else {
        let earlier = strided(view.drop_last(), stride, size);
        if (view.len() - 1) % stride < size {
            earlier.push(view.last())
        } else {
            earlier
        }
    }
}

/// The bytes of the elements of an accessor: the bytes from `from` to `to`,
/// and, where the elements are interleaved with others, of those only the
/// first `size` of each run of `stride`.
pub open spec fn accessor_data(buffer: Seq<u8>, layout: AccessorLayout) -> Seq<u8> {
    let view = buffer.subrange(layout.from(), layout.to());
    match layout.stride {
        Some(stride) => strided(view, stride as int, layout.size as int),
        None => view,
    }
}

/// The bytes of the elements that an accessor describes.
pub fn get_data_from_accessor(buffer: &[u8], layout: AccessorLayout) -> (data: Vec<u8>)
    requires
        layout.spec_fits(buffer@.len()),
    ensures
        data@ == accessor_data(buffer@, layout),
{
    let total = buffer.len();
    assert(0 <= layout.count * layout.size) by (nonlinear_arith)
        requires
            0 <= layout.count,
            0 <= layout.size,
    ;
    assert(layout.to() <= total);
    let from = layout.view_offset + layout.accessor_offset;
    let to = from + layout.count * layout.size;
    let ghost view = buffer@.subrange(from as int, to as int);
    let mut data: Vec<u8> = Vec::new();
    let mut index: usize = 0;
    assert(view.take(0) =~= Seq::<u8>::empty());
    while index < to - from
        invariant
            from <= to <= buffer@.len(),
            index <= to - from,
            view == buffer@.subrange(from as int, to as int),
            layout.stride == Some(0usize) ==> to == from,
            data@ == match layout.stride {
                Some(stride) => strided(view.take(index as int), stride as int, layout.size as int),
                None => view.take(index as int),
            },
        decreases to - from - index,
    {
        let byte = buffer[from + index];
        proof {
            assert(view.take(index + 1).drop_last() =~= view.take(index as int));
            assert(view.take(index + 1).last() == byte);
            assert(view.take(index + 1) =~= view.take(index as int).push(byte));
        }
        match layout.stride {
            Some(stride) => {
                if index % stride < layout.size {
                    data.push(byte);
                }
            },
            None => {
                data.push(byte);
            },
        }
        index = index + 1;
    }
    assert(view.take((to - from) as int) =~= view);
    data
}

} // verus!
