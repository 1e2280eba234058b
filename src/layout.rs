use vstd::prelude::*;

verus! {

/// The largest offset that an `i32` offset table can hold.
pub const MAX_OFFSET: usize = 0x7fff_ffff;

/// The three buffers of a variable-length binary column, as mathematical
/// values: the concatenated bytes of the elements, the offset table and the
/// validity flags.
pub struct Layout {
    pub values: Seq<u8>,
    pub offsets: Seq<int>,
    pub validity: Seq<bool>,
}

impl Layout {
    /// The layout of a column with no elements.
    pub open spec fn empty() -> Layout {
        Layout { values: Seq::empty(), offsets: seq![0int], validity: Seq::empty() }
    }

    /// Number of elements.
    pub open spec fn len(self) -> nat {
        self.validity.len()
    }

    /// Offset table starts at 0, has one entry more than there are elements,
    /// never decreases, and ends at the length of the value bytes.
    pub open spec fn wf(self) -> bool {
        &&& self.offsets.len() == self.validity.len() + 1
        &&& self.offsets[0] == 0
        &&& forall|i: int| 0 <= i < self.validity.len() ==> #[trigger] self.offsets[i] <= self.offsets[i + 1]
        &&& self.offsets.last() == self.values.len()
    }

    /// The bytes of element `i`, or `None` where it is null.
    pub open spec fn element(self, i: int) -> Option<Seq<u8>> {
        if self.validity[i] {
            Some(self.values.subrange(self.offsets[i], self.offsets[i + 1]))
        } else {
            None
        }
    }

    /// The layout after appending a present element holding `bytes`.
    pub open spec fn push_value(self, bytes: Seq<u8>) -> Layout {
        Layout {
            values: self.values + bytes,
            offsets: self.offsets.push((self.values.len() + bytes.len()) as int),
            validity: self.validity.push(true),
        }
    }

    /// The layout after appending a null element.
    pub open spec fn push_null(self) -> Layout {
        Layout {
            values: self.values,
            offsets: self.offsets.push(self.offsets.last()),
            validity: self.validity.push(false),
        }
    }

    /// The layout after appending one item: `Some(bytes)` for a value,
    /// `None` for a null.
    pub open spec fn push_item(self, item: Option<Seq<u8>>) -> Layout {
        match item {
            Some(bytes) => self.push_value(bytes),
            None => self.push_null(),
        }
    }

    /// The layout after appending `items` in order.
    pub open spec fn push_items(self, items: Seq<Option<Seq<u8>>>) -> Layout
        decreases items.len(),
    {
        if items.len() == 0 {
            self
        } else {
            self.push_items(items.drop_last()).push_item(items.last())
        }
    }

    /// The layout built from `items` by a fresh builder.
    pub open spec fn from_items(items: Seq<Option<Seq<u8>>>) -> Layout {
        Layout::empty().push_items(items)
    }
}

/// The concatenation of `chunks`, in order.
pub open spec fn concat(chunks: Seq<Seq<u8>>) -> Seq<u8>
    decreases chunks.len(),
{
    if chunks.len() == 0 {
        Seq::empty()
    } else {
        concat(chunks.drop_last()) + chunks.last()
    }
}

/// Appending one item keeps a layout well formed, adds one element that
/// equals the item, and leaves the earlier elements as they were.
pub proof fn lemma_push_item(l: Layout, item: Option<Seq<u8>>)
    requires
        l.wf(),
    ensures
        l.push_item(item).wf(),
        l.push_item(item).len() == l.len() + 1,
        l.push_item(item).element(l.len() as int) == item,
        forall|i: int| 0 <= i < l.len() ==> #[trigger] l.push_item(item).element(i) == l.element(i),
{
    let n = l.push_item(item);
    assert(n.offsets[0] == l.offsets[0]);
    assert forall|i: int| 0 <= i < l.len() implies #[trigger] n.element(i) == l.element(i) by {
        assert(n.offsets[i] == l.offsets[i]);
        assert(n.offsets[i + 1] == l.offsets[i + 1]);
        lemma_offsets_bounded(l, i);
        lemma_offsets_bounded(l, i + 1);
        assert(l.offsets[i] <= l.offsets[i + 1]);
        assert(n.values.subrange(l.offsets[i], l.offsets[i + 1]) =~= l.values.subrange(l.offsets[i], l.offsets[i + 1]));
    }
    match item {
        Some(bytes) => {
            assert(n.values.subrange(l.values.len() as int, (l.values.len() + bytes.len()) as int) =~= bytes);
        },
        None => {},
    }
}

/// Every offset of a well-formed layout lies between 0 and the length of
/// the value bytes.
pub proof fn lemma_offsets_bounded(l: Layout, k: int)
    requires
        l.wf(),
        0 <= k < l.offsets.len(),
    ensures
        0 <= l.offsets[k] <= l.values.len(),
    decreases l.offsets.len() - k,
{
    if k + 1 < l.offsets.len() {
        lemma_offsets_bounded(l, k + 1);
    }
    lemma_offsets_from_zero(l, k);
}

proof fn lemma_offsets_from_zero(l: Layout, k: int)
    requires
        l.wf(),
        0 <= k < l.offsets.len(),
    ensures
        0 <= l.offsets[k],
    decreases k,
{
    if k > 0 {
        lemma_offsets_from_zero(l, k - 1);
    }
}

/// For every sequence of appended values and nulls, the resulting layout is
/// well formed, has one element per item and one offset more, starts its
/// offsets at 0, and holds each item exactly: its bytes between its two
/// offsets and its validity flag.
pub proof fn lemma_from_items(items: Seq<Option<Seq<u8>>>)
    ensures
        Layout::from_items(items).wf(),
        Layout::from_items(items).len() == items.len(),
        Layout::from_items(items).offsets.len() == items.len() + 1,
        Layout::from_items(items).offsets[0] == 0,
        forall|i: int| 0 <= i < items.len() ==> #[trigger] Layout::from_items(items).element(i) == items[i],
        forall|i: int| 0 <= i < items.len() ==> #[trigger] Layout::from_items(items).validity[i] == items[i].is_some(),
{
    let e = Layout::empty();
    assert(e.wf());
    lemma_push_items(e, items);
    let r = Layout::from_items(items);
    assert forall|i: int| 0 <= i < items.len() implies #[trigger] r.element(i) == items[i] by {
        assert(r.element(e.len() + i) == items[i]);
    }
    assert forall|i: int| 0 <= i < items.len() implies #[trigger] r.validity[i] == items[i].is_some() by {
        assert(r.element(i) == items[i]);
    }
}

/// Appending `items` to a well-formed layout keeps its elements and adds
/// one element per item, equal to it.
pub proof fn lemma_push_items(l: Layout, items: Seq<Option<Seq<u8>>>)
    requires
        l.wf(),
    ensures
        l.push_items(items).wf(),
        l.push_items(items).len() == l.len() + items.len(),
        forall|i: int| 0 <= i < l.len() ==> #[trigger] l.push_items(items).element(i) == l.element(i),
        forall|i: int| 0 <= i < items.len() ==> #[trigger] l.push_items(items).element(l.len() + i) == items[i],
    decreases items.len(),
{
    if items.len() > 0 {
        let prefix = items.drop_last();
        lemma_push_items(l, prefix);
        let m = l.push_items(prefix);
        lemma_push_item(m, items.last());
        let r = m.push_item(items.last());
        assert(l.push_items(items) == r);
        assert forall|i: int| 0 <= i < l.len() implies #[trigger] r.element(i) == l.element(i) by {
            assert(m.element(i) == l.element(i));
        }
        assert forall|i: int| 0 <= i < items.len() implies #[trigger] r.element(l.len() + i) == items[i] by {
            if i < prefix.len() {
                assert(m.element(l.len() + i) == prefix[i]);
            }
        }
    }
}

/// Bytes written in pieces and then committed make exactly one new element,
/// whose content is the pieces joined in order: when the pending bytes start
/// empty and each write adds the next piece, committing onto a well-formed
/// layout adds one element equal to the concatenation and keeps all others.
pub proof fn lemma_commit_after_writes(base: Layout, pendings: Seq<Seq<u8>>, chunks: Seq<Seq<u8>>)
    requires
        base.wf(),
        pendings.len() == chunks.len() + 1,
        pendings[0] == Seq::<u8>::empty(),
        forall|i: int| 0 <= i < chunks.len() ==> #[trigger] pendings[i + 1] == pendings[i] + chunks[i],
    ensures
        pendings.last() == concat(chunks),
        base.push_value(pendings.last()).wf(),
        base.push_value(pendings.last()).len() == base.len() + 1,
        base.push_value(pendings.last()).element(base.len() as int) == Some(concat(chunks)),
        forall|i: int| 0 <= i < base.len() ==> #[trigger] base.push_value(pendings.last()).element(i) == base.element(i),
{
    lemma_pending_concat(pendings, chunks);
    lemma_push_item(base, Some(pendings.last()));
}

proof fn lemma_pending_concat(pendings: Seq<Seq<u8>>, chunks: Seq<Seq<u8>>)
    requires
        pendings.len() == chunks.len() + 1,
        pendings[0] == Seq::<u8>::empty(),
        forall|i: int| 0 <= i < chunks.len() ==> #[trigger] pendings[i + 1] == pendings[i] + chunks[i],
    ensures
        pendings.last() == concat(chunks),
    decreases chunks.len(),
{
    if chunks.len() > 0 {
        let n = chunks.len() - 1;
        lemma_pending_concat(pendings.drop_last(), chunks.drop_last());
        assert(pendings[n + 1] == pendings[n] + chunks[n]);
    }
}

/// Finishing and then appending again builds a second column independent of
/// the first: the column of `first` keeps exactly the items of `first`, and
/// the layout built after the reset holds exactly the items of `second`, as
/// a fresh builder would make it.
pub proof fn lemma_reuse_after_finish(first: Seq<Option<Seq<u8>>>, second: Seq<Option<Seq<u8>>>)
    ensures
        Layout::empty().push_items(second) == Layout::from_items(second),
        Layout::empty().push_items(second).len() == second.len(),
        forall|i: int| 0 <= i < second.len() ==> #[trigger] Layout::empty().push_items(second).element(i) == second[i],
        Layout::from_items(first).len() == first.len(),
        forall|i: int| 0 <= i < first.len() ==> #[trigger] Layout::from_items(first).element(i) == first[i],
{
    lemma_from_items(first);
    lemma_from_items(second);
}

} // verus!
