//! The arrow buffers behind the builder, and the one step that turns them
//! into array data. Each item here is taken on trust from arrow's source.
use vstd::prelude::*;
use arrow_array::{Array, BinaryArray};
use arrow_buffer::{BufferBuilder, NullBufferBuilder, OffsetBuffer, ScalarBuffer, Buffer};
use arrow_data::ArrayData;

verus! {

/// The most offsets and validity flags that a builder reserves room for
/// up front; larger capacity hints are cut down to it.
pub const MAX_RESERVE: usize = 0x10_0000;

#[verifier::external_type_specification]
#[verifier::external_body]
pub struct ExArrayData(ArrayData);

#[verifier::external_type_specification]
#[verifier::external_body]
pub struct ExNullBufferBuilder(NullBufferBuilder);

/// The `i32` offset table under construction, held in arrow's
/// `BufferBuilder<i32>`.
#[verifier::external_body]
pub struct OffsetsBuilder {
    inner: BufferBuilder<i32>,
}

/// The offsets that an `OffsetsBuilder` holds, in order.
pub uninterp spec fn offset_entries(b: OffsetsBuilder) -> Seq<i32>;

/// The validity flags that a `NullBufferBuilder` holds, in order.
pub uninterp spec fn null_bits(b: NullBufferBuilder) -> Seq<bool>;

/// The offset table of a variable-length array's data, in order.
pub uninterp spec fn array_offsets(a: ArrayData) -> Seq<int>;

/// The value bytes of a variable-length array's data.
pub uninterp spec fn array_values(a: ArrayData) -> Seq<u8>;

/// The validity flags of an array's data, one per element (all set where
/// the data has no null buffer).
pub uninterp spec fn array_validity(a: ArrayData) -> Seq<bool>;

/// The offsets as mathematical integers.
pub open spec fn offsets_int(s: Seq<i32>) -> Seq<int> {
    s.map_values(|o: i32| o as int)
}

impl OffsetsBuilder {
    /// Relies on `BufferBuilder::new`: an empty builder with room for
    /// `capacity` offsets. It panics when `4 * capacity` bytes, rounded up to
    /// 64, exceed `isize::MAX`; `requires` keeps far below that.
    #[verifier::external_body]
    pub(crate) fn new(capacity: usize) -> (r: Self)
        requires
            capacity <= MAX_RESERVE,
        ensures
            offset_entries(r) == Seq::<i32>::empty(),
    {
        OffsetsBuilder { inner: BufferBuilder::new(capacity) }
    }

    /// Relies on `BufferBuilder::append`: `v` is added at the end.
    #[verifier::external_body]
    pub(crate) fn append(&mut self, v: i32)
        ensures
            offset_entries(*final(self)) == offset_entries(*old(self)).push(v),
    {
        self.inner.append(v)
    }
}

/// Relies on `NullBufferBuilder::new`: an empty builder, which allocates
/// nothing until a null is appended, and then room for `capacity` flags.
#[verifier::external_body]
pub(crate) fn new_null_builder(capacity: usize) -> (r: NullBufferBuilder)
    requires
        capacity <= MAX_RESERVE,
    ensures
        null_bits(r) == Seq::<bool>::empty(),
{
    NullBufferBuilder::new(capacity)
}

/// Relies on `NullBufferBuilder::append`: the flag `valid` is added at the
/// end.
#[verifier::external_body]
pub(crate) fn append_validity(b: &mut NullBufferBuilder, valid: bool)
    ensures
        null_bits(*final(b)) == null_bits(*old(b)).push(valid),
{
    b.append(valid)
}

/// Relies on `NullBufferBuilder::len`: the number of flags held.
#[verifier::external_body]
pub(crate) fn validity_len(b: &NullBufferBuilder) -> (r: usize)
    ensures
        r == null_bits(*b).len(),
{
    b.len()
}

/// Relies on `BufferBuilder::finish` and `NullBufferBuilder::finish`, which
/// hand out what the two builders hold and leave them empty, and on
/// `BinaryArray::new` over `OffsetBuffer::new`, `Buffer::from_vec` and the
/// null buffer, then `Array::into_data`: the result holds exactly these
/// offsets, bytes and flags (`None` for the nulls means that all flags are
/// set). `ScalarBuffer::from` asserts an alignment that
/// the buffers of `BufferBuilder` always have. The constructors panic unless the offsets are
/// non-empty, start at or above 0, never decrease and stay within the
/// values, and there is one flag per element: `requires` leaves those inputs
/// out.
#[verifier::external_body]
pub(crate) fn build_binary_array(offsets: &mut OffsetsBuilder, values: Vec<u8>, nulls: &mut NullBufferBuilder) -> (r: ArrayData)
    requires
        offset_entries(*old(offsets)).len() == null_bits(*old(nulls)).len() + 1,
        offset_entries(*old(offsets))[0] >= 0,
        forall|i: int| 0 <= i < null_bits(*old(nulls)).len()
            ==> #[trigger] offset_entries(*old(offsets))[i] <= offset_entries(*old(offsets))[i + 1],
        offset_entries(*old(offsets)).last() <= values@.len(),
    ensures
        array_offsets(r) == offsets_int(offset_entries(*old(offsets))),
        array_values(r) == values@,
        array_validity(r) == null_bits(*old(nulls)),
        offset_entries(*final(offsets)) == Seq::<i32>::empty(),
        null_bits(*final(nulls)) == Seq::<bool>::empty(),
{
    let offsets = OffsetBuffer::new(ScalarBuffer::from(offsets.inner.finish()));
    BinaryArray::new(offsets, Buffer::from_vec(values), nulls.finish()).into_data()
}

} // verus!
