use vstd::prelude::*;
use vstd::string::StringSliceAdditionalSpecFns;
use arrow_buffer::NullBufferBuilder;
use arrow_data::ArrayData;
use crate::buffers::{
    OffsetsBuilder, MAX_RESERVE, offset_entries, null_bits, array_offsets, array_values, array_validity, offsets_int,
    new_null_builder, append_validity, validity_len, build_binary_array,
};
use crate::layout::{Layout, MAX_OFFSET};

verus! {

/// Why an append was refused.
#[derive(Debug, Clone, Copy, PartialEq, Eq, Structural)]
pub enum BuilderError {
    /// The value bytes would grow longer than an `i32` offset can record.
    OffsetOverflow,
}

/// Builds a variable-length binary column: value bytes, an `i32` offset
/// table and validity flags, turned into binary array data by `finish`.
pub struct GenericByteBuilder {
    value_builder: Vec<u8>,
    offsets_builder: OffsetsBuilder,
    null_buffer_builder: NullBufferBuilder,
}

impl View for GenericByteBuilder {
    type V = Layout;

    closed spec fn view(&self) -> Layout {
        Layout {
            values: self.value_builder@,
            offsets: offsets_int(offset_entries(self.offsets_builder)),
            validity: null_bits(self.null_buffer_builder),
        }
    }
}

impl GenericByteBuilder {
    /// The builder's layout is well formed and its value bytes fit the
    /// offset type.
    pub open spec fn wf(&self) -> bool {
        &&& self@.wf()
        &&& self@.values.len() <= MAX_OFFSET
    }

    /// Creates an empty builder with room for 1024 elements and 1024 bytes.
    pub fn new() -> (r: Self)
        ensures
            r.wf(),
            r@ == Layout::empty(),
    {
        Self::with_capacity(1024, 1024)
    }

    /// Creates an empty builder; the capacities only reserve memory.
    pub fn with_capacity(item_capacity: usize, data_capacity: usize) -> (r: Self)
        ensures
            r.wf(),
            r@ == Layout::empty(),
    {
        let items: usize = if item_capacity < MAX_RESERVE { item_capacity } else { MAX_RESERVE - 1 };
        let mut offsets_builder = OffsetsBuilder::new(items + 1);
        offsets_builder.append(0);
        let r = GenericByteBuilder {
            value_builder: Vec::with_capacity(data_capacity),
            offsets_builder,
            null_buffer_builder: new_null_builder(items),
        };
        assert(offsets_int(offset_entries(r.offsets_builder)) =~= seq![0int]);
        assert(r@.values =~= Seq::<u8>::empty());
        r
    }

    /// Number of elements appended so far.
    pub fn len(&self) -> (r: usize)
        ensures
            r == self@.len(),
    {
        validity_len(&self.null_buffer_builder)
    }

    /// Records the current end of the value bytes as the end of a new
    /// element with the given validity.
    fn push_offset(&mut self, valid: bool)
        requires
            old(self)@.offsets.len() == old(self)@.validity.len() + 1,
            old(self)@.offsets[0] == 0,
            forall|i: int| 0 <= i < old(self)@.validity.len() ==> #[trigger] old(self)@.offsets[i] <= old(self)@.offsets[i + 1],
            old(self)@.offsets.last() <= old(self)@.values.len(),
            old(self)@.values.len() <= MAX_OFFSET,
        ensures
            final(self).wf(),
            final(self)@ == (Layout {
                values: old(self)@.values,
                offsets: old(self)@.offsets.push(old(self)@.values.len() as int),
                validity: old(self)@.validity.push(valid),
            }),
    {
        let next = self.value_builder.len() as i32;
        append_validity(&mut self.null_buffer_builder, valid);
        self.offsets_builder.append(next);
        assert(offsets_int(offset_entries(self.offsets_builder))
            =~= offsets_int(offset_entries(old(self).offsets_builder)).push(next as int));
    }

    /// Appends a present element holding `value`. Fails, and changes
    /// nothing, when the value bytes would grow past the largest offset.
    pub fn append_value(&mut self, value: &[u8]) -> (r: Result<(), BuilderError>)
        requires
            old(self).wf(),
        ensures
            final(self).wf(),
            r is Ok <==> old(self)@.values.len() + value@.len() <= MAX_OFFSET,
            r is Ok ==> final(self)@ == old(self)@.push_value(value@),
            r is Err ==> final(self)@ == old(self)@,
    {
        if value.len() > MAX_OFFSET - self.value_builder.len() {
            return Err(BuilderError::OffsetOverflow);
        }
        let mut i: usize = 0;
        while i < value.len()
            invariant
                i <= value@.len(),
                old(self).wf(),
                self.offsets_builder == old(self).offsets_builder,
                self.null_buffer_builder == old(self).null_buffer_builder,
                self.value_builder@ == old(self).value_builder@ + value@.subrange(0, i as int),
                old(self).value_builder@.len() + value@.len() <= MAX_OFFSET,
            decreases value@.len() - i,
        {
            self.value_builder.push(value[i]);
            i += 1;
            assert(self.value_builder@ =~= old(self).value_builder@ + value@.subrange(0, i as int));
        }
        assert(value@.subrange(0, value@.len() as int) =~= value@);
        self.push_offset(true);
        Ok(())
    }

    /// Appends a null element, which holds no bytes.
    pub fn append_null(&mut self)
        requires
            old(self).wf(),
        ensures
            final(self).wf(),
            final(self)@ == old(self)@.push_null(),
    {
        self.push_offset(false);
    }

    /// Turns the elements appended so far into the data of a `BinaryArray`
    /// (`BinaryArray::from` takes it as it is) and leaves the builder empty,
    /// ready for the next array.
    pub fn finish(&mut self) -> (r: ArrayData)
        requires
            old(self).wf(),
        ensures
            array_offsets(r) == old(self)@.offsets,
            array_values(r) == old(self)@.values,
            array_validity(r) == old(self)@.validity,
            final(self).wf(),
            final(self)@ == Layout::empty(),
    {
        let mut values: Vec<u8> = Vec::new();
        std::mem::swap(&mut values, &mut self.value_builder);
        proof {
            let o = offset_entries(self.offsets_builder);
            assert forall|i: int| 0 <= i < null_bits(self.null_buffer_builder).len() implies #[trigger] o[i] <= o[i + 1] by {
                assert(old(self)@.offsets[i] <= old(self)@.offsets[i + 1]);
            }
            assert(old(self)@.offsets.last() == o.last() as int);
            assert(old(self)@.offsets[0] == o[0] as int);
        }
        let r = build_binary_array(&mut self.offsets_builder, values, &mut self.null_buffer_builder);
        self.offsets_builder.append(self.value_builder.len() as i32);
        assert(offsets_int(offset_entries(self.offsets_builder)) =~= seq![0int]);
        assert(self@.values =~= Seq::<u8>::empty());
        r
    }
}

/// Writes the bytes of one element piece by piece. `finish` commits them as
/// a new present element; `abandon` removes them again and leaves the
/// builder as it was when the writer was made. While bytes are pending the
/// builder is not well formed, so verified code can use it again only after
/// one of the two.
pub struct ByteWriter<'a> {
    builder: &'a mut GenericByteBuilder,
    begin_offset: usize,
}

impl<'a> ByteWriter<'a> {
    /// The builder that this writer writes into.
    pub closed spec fn target(&self) -> &'a mut GenericByteBuilder {
        self.builder
    }

    /// The builder's layout as it was when the writer was made.
    pub closed spec fn base(&self) -> Layout {
        Layout {
            values: self.builder@.values.subrange(0, self.begin_offset as int),
            offsets: self.builder@.offsets,
            validity: self.builder@.validity,
        }
    }

    /// The bytes written since the writer was made.
    pub closed spec fn pending(&self) -> Seq<u8> {
        self.builder@.values.subrange(self.begin_offset as int, self.builder@.values.len() as int)
    }

    /// The pending bytes follow the values that the builder held when the
    /// writer was made.
    pub closed spec fn in_bounds(&self) -> bool {
        self.begin_offset <= self.builder@.values.len()
    }

    /// The layout before the writer is well formed and fits the offset type.
    pub open spec fn wf(&self) -> bool {
        &&& self.in_bounds()
        &&& self.base().wf()
        &&& self.base().values.len() <= MAX_OFFSET
    }

    /// Appends all of `buf` to the pending bytes.
    pub fn write(&mut self, buf: &[u8]) -> (r: Result<usize, BuilderError>)
        requires
            old(self).wf(),
        ensures
            final(self).wf(),
            *final(final(self).target()) == *final(old(self).target()),
            final(self).base() == old(self).base(),
            r == Ok::<usize, BuilderError>(buf@.len() as usize),
            final(self).pending() == old(self).pending() + buf@,
    {
        let mut i: usize = 0;
        while i < buf.len()
            invariant
                i <= buf@.len(),
                old(self).wf(),
                self.begin_offset == old(self).begin_offset,
                *final(self.builder) == *final(old(self).builder),
                self.builder.offsets_builder == old(self).builder.offsets_builder,
                self.builder.null_buffer_builder == old(self).builder.null_buffer_builder,
                self.builder.value_builder@ == old(self).builder.value_builder@ + buf@.subrange(0, i as int),
            decreases buf@.len() - i,
        {
            self.builder.value_builder.push(buf[i]);
            i += 1;
            assert(self.builder.value_builder@ =~= old(self).builder.value_builder@ + buf@.subrange(0, i as int));
        }
        assert(buf@.subrange(0, buf@.len() as int) =~= buf@);
        assert(self.base().values =~= old(self).base().values);
        assert(self.pending() =~= old(self).pending() + buf@);
        Ok(buf.len())
    }

    /// Appends the bytes of `s` to the pending bytes.
    pub fn write_str(&mut self, s: &str) -> (r: Result<(), BuilderError>)
        requires
            old(self).wf(),
        ensures
            final(self).wf(),
            *final(final(self).target()) == *final(old(self).target()),
            final(self).base() == old(self).base(),
            r == Ok::<(), BuilderError>(()),
            final(self).pending() == old(self).pending() + s.spec_bytes(),
    {
        let _ = self.write(s.as_bytes());
        Ok(())
    }

    /// Commits the pending bytes as one new present element. Where the value
    /// bytes have grown past the largest offset, the pending bytes are
    /// dropped instead, as `abandon` does, and the error is returned.
    pub fn finish(self) -> (r: Result<(), BuilderError>)
        requires
            self.wf(),
        ensures
            final(self.target()).wf(),
            r is Ok <==> self.base().values.len() + self.pending().len() <= MAX_OFFSET,
            r is Ok ==> final(self.target())@ == self.base().push_value(self.pending()),
            r is Err ==> final(self.target())@ == self.base(),
    {
        let mut w = self;
        proof {
            assert(w.builder@.values =~= w.base().values + w.pending());
        }
        if w.builder.value_builder.len() > MAX_OFFSET {
            w.builder.value_builder.truncate(w.begin_offset);
            assert(w.builder@.values =~= w.base().values);
            return Err(BuilderError::OffsetOverflow);
        }
        w.builder.push_offset(true);
        Ok(())
    }

    /// Drops the pending bytes: the builder is left as it was when the
    /// writer was made.
    pub fn abandon(self)
        requires
            self.wf(),
        ensures
            final(self.target()).wf(),
            final(self.target())@ == self.base(),
    {
        let mut w = self;
        w.builder.value_builder.truncate(w.begin_offset);
        assert(w.builder@.values =~= w.base().values);
    }
}

impl GenericByteBuilder {
    /// Starts writing one element piece by piece.
    pub fn writer(&mut self) -> (w: ByteWriter<'_>)
        requires
            old(self).wf(),
        ensures
            w.wf(),
            *w.target() == *old(self),
            w.base() == old(self)@,
            w.pending() == Seq::<u8>::empty(),
            *final(self) == *final(w.target()),
    {
        let begin_offset = self.value_builder.len();
        assert(self.value_builder@.subrange(0, begin_offset as int) =~= self.value_builder@);
        ByteWriter { builder: self, begin_offset }
    }
}

} // verus!
