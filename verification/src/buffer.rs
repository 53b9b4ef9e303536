//! A growable region of bytes that is read and written in rows of a fixed
//! size.
//!
//! The size of a row, the stride, is chosen when the buffer is created and
//! never changes. The buffer only ever grows, and the bytes that growth
//! introduces are zero.

use vstd::prelude::*;

use crate::component::Component;

verus! {

/// What a [`Buffer`] holds: the stride and the bytes, row after row.
#[verifier::ext_equal]
pub struct BufferView {
    pub stride: nat,
    pub bytes: Seq<u8>,
}

impl BufferView {
    /// The stride is positive and the bytes form whole rows.
    pub open spec fn wf(self) -> bool {
        &&& self.stride > 0
        &&& self.bytes.len() % self.stride == 0
    }

    /// The number of rows.
    pub open spec fn len(self) -> nat {
        self.bytes.len() / self.stride
    }

    /// The bytes of row `index`.
    pub open spec fn row(self, index: nat) -> Seq<u8> {
        self.bytes.subrange((index * self.stride) as int, ((index + 1) * self.stride) as int)
    }

    /// An empty buffer of the given stride.
    pub open spec fn empty(stride: nat) -> BufferView {
        BufferView { stride, bytes: Seq::empty() }
    }

    /// The buffer after `row` has been written at `index`: the bytes of that
    /// row are replaced, every other byte that was there stays, and the bytes
    /// between the old end and the written row, if any, are zero.
    pub open spec fn write(self, index: nat, row: Seq<u8>) -> BufferView {
        let start = index * self.stride;
        let end = start + self.stride;
        let len = if self.bytes.len() < end {
            end
        } else {
            self.bytes.len()
        };
        BufferView {
            stride: self.stride,
            bytes: Seq::new(
                len,
                |i: int|
                    if start <= i < end {
                        row[i - start]
                    } else if i < self.bytes.len() {
                        self.bytes[i]
                    } else {
                        0u8
                    },
            ),
        }
    }

    /// The buffer with the bytes of row `index` replaced by `row`, whatever
    /// the length of `row` is.
    pub open spec fn splice(self, index: nat, row: Seq<u8>) -> BufferView {
        BufferView {
            stride: self.stride,
            bytes: self.bytes.subrange(0, (index * self.stride) as int) + row + self.bytes.subrange(
                ((index + 1) * self.stride) as int,
                self.bytes.len() as int,
            ),
        }
    }

    /// A written buffer still consists of whole rows, and it has grown just
    /// enough to hold the written row.
    pub proof fn lemma_write_len(self, index: nat, row: Seq<u8>)
        requires
            self.wf(),
        ensures
            self.write(index, row).wf(),
            self.write(index, row).stride == self.stride,
            self.write(index, row).len() == if self.len() <= index {
                index + 1
            } else {
                self.len()
            },
    {
        let s = self.stride as int;
        let n = self.bytes.len() as int;
        let q = self.len() as int;
        let end = index * s + s;
        let after = self.write(index, row);
        vstd::arithmetic::div_mod::lemma_fundamental_div_mod(n, s);
        assert(n == s * q);
        assert(s * (index + 1) == index * s + s) by (nonlinear_arith);
        assert(after.stride == self.stride);
        if q <= index {
            assert(s * q < s * (index + 1)) by (nonlinear_arith)
                requires
                    q <= index,
                    s > 0,
            ;
            assert(after.bytes.len() == end);
            vstd::arithmetic::div_mod::lemma_div_multiples_vanish(index as int + 1, s);
            vstd::arithmetic::div_mod::lemma_mod_multiples_basic(index as int + 1, s);
            assert((s * (index + 1)) % s == 0) by {
                assert((index + 1) * s == s * (index + 1)) by (nonlinear_arith);
            }
            assert((s * (index + 1)) / s == index + 1);
        } else {
            assert(s * (index + 1) <= s * q) by (nonlinear_arith)
                requires
                    index + 1 <= q,
                    s > 0,
            ;
            assert(after.bytes.len() == n);
        }
    }

    /// Reading back the row that was just written gives what was written,
    /// whether or not the write made the buffer grow.
    pub proof fn lemma_write_then_read(self, index: nat, row: Seq<u8>)
        requires
            self.stride > 0,
            row.len() == self.stride,
        ensures
            self.write(index, row).row(index) == row,
    {
        let s = self.stride as int;
        assert((index + 1) * s == index * s + s) by (nonlinear_arith);
        assert(0 <= index * s) by (nonlinear_arith)
            requires
                s > 0,
                index >= 0,
        ;
        assert(self.write(index, row).row(index) =~= row);
    }

    /// A write leaves every other row that the buffer already held as it was.
    pub proof fn lemma_write_keeps_other_rows(self, index: nat, row: Seq<u8>, other: nat)
        requires
            self.wf(),
            other != index,
            other < self.len(),
        ensures
            self.write(index, row).row(other) == self.row(other),
    {
        let s = self.stride as int;
        let n = self.bytes.len() as int;
        let q = self.len() as int;
        vstd::arithmetic::div_mod::lemma_fundamental_div_mod(n, s);
        assert(n == s * q);
        assert((index + 1) * s == index * s + s) by (nonlinear_arith);
        assert((other + 1) * s == other * s + s) by (nonlinear_arith);
        assert((other + 1) * s <= s * q) by (nonlinear_arith)
            requires
                other + 1 <= q,
                s > 0,
        ;
        assert(0 <= other * s) by (nonlinear_arith)
            requires
                s > 0,
                other >= 0,
        ;
        if other < index {
            assert((other + 1) * s <= index * s) by (nonlinear_arith)
                requires
                    other + 1 <= index,
                    s > 0,
            ;
        } else {
            assert((index + 1) * s <= other * s) by (nonlinear_arith)
                requires
                    index + 1 <= other,
                    s > 0,
            ;
        }
        assert(self.write(index, row).row(other) =~= self.row(other));
    }

    /// A write beyond the end fills the rows that it skips with zero bytes,
    /// and the written row becomes the last one. This holds in particular of
    /// the first write into an empty buffer.
    pub proof fn lemma_write_zero_fills(self, index: nat, row: Seq<u8>, skipped: nat)
        requires
            self.wf(),
            self.len() <= skipped < index,
        ensures
            self.write(index, row).len() == index + 1,
            self.write(index, row).row(skipped) == Seq::new(self.stride, |i: int| 0u8),
    {
        let s = self.stride as int;
        let n = self.bytes.len() as int;
        let q = self.len() as int;
        self.lemma_write_len(index, row);
        vstd::arithmetic::div_mod::lemma_fundamental_div_mod(n, s);
        assert(n == s * q);
        assert((index + 1) * s == index * s + s) by (nonlinear_arith);
        assert((skipped + 1) * s == skipped * s + s) by (nonlinear_arith);
        assert(s * q <= skipped * s) by (nonlinear_arith)
            requires
                q <= skipped,
                s > 0,
        ;
        assert((skipped + 1) * s <= index * s) by (nonlinear_arith)
            requires
                skipped + 1 <= index,
                s > 0,
        ;
        assert(self.write(index, row).row(skipped) =~= Seq::new(self.stride, |i: int| 0u8));
    }

    /// Writing a value and reading the same row back as the same type gives
    /// the value, for any row, also one far beyond the end of the buffer.
    pub proof fn lemma_write_as_then_read_as<T: Component>(self, index: nat, value: T)
        requires
            self.stride == T::spec_size(),
        ensures
            T::decode(self.write(index, value.encode()).row(index)) == value,
    {
        T::lemma_size_bounds();
        T::lemma_round_trip(value);
        self.lemma_write_then_read(index, value.encode());
    }
}

impl BufferView {
    /// The bytes of a row that the buffer holds lie inside the buffer.
    pub proof fn lemma_row_bounds(self, index: nat)
        requires
            self.wf(),
            index < self.len(),
        ensures
            (index + 1) * self.stride == index * self.stride + self.stride,
            0 <= index * self.stride,
            (index + 1) * self.stride <= self.bytes.len(),
            self.row(index).len() == self.stride,
    {
        let s = self.stride as int;
        let n = self.bytes.len() as int;
        let q = self.len() as int;
        vstd::arithmetic::div_mod::lemma_fundamental_div_mod(n, s);
        assert(n == s * q);
        assert((index + 1) * s == index * s + s) by (nonlinear_arith);
        assert((index + 1) * s <= s * q) by (nonlinear_arith)
            requires
                index + 1 <= q,
                s > 0,
        ;
        assert(0 <= index * s) by (nonlinear_arith)
            requires
                s > 0,
                index >= 0,
        ;
    }

    /// Replacing a row that the buffer holds by a row of the right length is
    /// a write of that row.
    pub proof fn lemma_splice_is_write(self, index: nat, row: Seq<u8>)
        requires
            self.wf(),
            index < self.len(),
            row.len() == self.stride,
        ensures
            self.splice(index, row) == self.write(index, row),
    {
        self.lemma_row_bounds(index);
        assert(self.splice(index, row).bytes =~= self.write(index, row).bytes);
    }
}

/// A growable, type-erased region of bytes, addressed in rows of `stride`
/// bytes each.
pub struct Buffer {
    bytes: Vec<u8>,
    stride: usize,
}

impl View for Buffer {
    type V = BufferView;

    closed spec fn view(&self) -> BufferView {
        BufferView { stride: self.stride as nat, bytes: self.bytes@ }
    }
}

impl Buffer {
    /// The buffer consists of whole rows of a positive stride.
    pub open spec fn wf(&self) -> bool {
        self@.wf()
    }

    /// The stride and the number of bytes fit the machine's word.
    pub proof fn lemma_view_bounds(&self)
        ensures
            self@.stride <= usize::MAX,
            self@.bytes.len() <= usize::MAX,
    {
        assert(self.bytes.len() == self@.bytes.len());
    }

    /// An empty buffer whose rows have the size of a `T`.
    pub fn new<T: Component>() -> (buffer: Buffer)
        ensures
            buffer.wf(),
            buffer@ == BufferView::empty(T::spec_size()),
    {
        proof {
            T::lemma_size_bounds();
            vstd::arithmetic::div_mod::lemma_small_mod(0, T::spec_size());
        }
        Buffer { bytes: Vec::new(), stride: T::size() }
    }

    /// The number of rows.
    pub fn len(&self) -> (len: usize)
        requires
            self.wf(),
        ensures
            len == self@.len(),
    {
        self.bytes.len() / self.stride
    }

    /// The number of bytes.
    pub fn bytes_len(&self) -> (len: usize)
        ensures
            len == self@.bytes.len(),
    {
        self.bytes.len()
    }

    /// The number of bytes in one row.
    pub fn stride(&self) -> (stride: usize)
        ensures
            stride == self@.stride,
    {
        self.stride
    }

    /// The bytes, row after row.
    pub fn as_bytes(&self) -> (bytes: &Vec<u8>)
        ensures
            bytes@ == self@.bytes,
    {
        &self.bytes
    }

    /// Reads row `index` as a `T`.
    pub fn read_as<T: Component>(&self, index: usize) -> (value: T)
        requires
            self.wf(),
            T::spec_size() == self@.stride,
            index < self@.len(),
        ensures
            value == T::decode(self@.row(index as nat)),
    {
        proof {
            self@.lemma_row_bounds(index as nat);
            assert(self.bytes.len() == self@.bytes.len());
        }
        let start = index * self.stride;
        let end = start + self.stride;
        T::from_bytes(vstd::slice::slice_subrange(self.bytes.as_slice(), start, end))
    }

    /// A shared view of the bytes of row `index`.
    pub fn row(&self, index: usize) -> (row: &[u8])
        requires
            self.wf(),
            index < self@.len(),
        ensures
            row@ == self@.row(index as nat),
    {
        proof {
            self@.lemma_row_bounds(index as nat);
            assert(self.bytes.len() == self@.bytes.len());
        }
        let start = index * self.stride;
        let end = start + self.stride;
        vstd::slice::slice_subrange(self.bytes.as_slice(), start, end)
    }

    /// An exclusive view of the bytes of row `index`. What the caller leaves
    /// in the view is what the buffer holds in that row afterwards.
    pub fn row_mut(&mut self, index: usize) -> (row: &mut [u8])
        requires
            old(self).wf(),
            index < old(self)@.len(),
        ensures
            row@ == old(self)@.row(index as nat),
            final(self)@ == old(self)@.splice(index as nat, final(row)@),
    {
        proof {
            self@.lemma_row_bounds(index as nat);
            assert(self.bytes.len() == self@.bytes.len());
        }
        let start = index * self.stride;
        let stride = self.stride;
        let all = self.bytes.as_mut_slice();
        let (_head, rest) = all.split_at_mut(start);
        let (row, _tail) = rest.split_at_mut(stride);
        row
    }

    /// An exclusive view of all the bytes. What the caller leaves in the
    /// view is what the buffer holds afterwards.
    pub fn as_mut_slice(&mut self) -> (bytes: &mut [u8])
        ensures
            bytes@ == old(self)@.bytes,
            final(self)@ == (BufferView { stride: old(self)@.stride, bytes: final(bytes)@ }),
    {
        self.bytes.as_mut_slice()
    }

    /// Writes `value` as row `index`. A write beyond the last row makes the
    /// buffer grow up to that row; the rows in between are zero.
    pub fn write_as<T: Component>(&mut self, index: usize, value: &T)
        requires
            old(self).wf(),
            T::spec_size() == old(self)@.stride,
            (index + 1) * old(self)@.stride <= usize::MAX,
        ensures
            final(self).wf(),
            final(self)@ == old(self)@.write(index as nat, value.encode()),
    {
        proof {
            let s = self.stride as int;
            assert((index + 1) * s == index * s + s) by (nonlinear_arith);
            assert(0 <= index * s) by (nonlinear_arith)
                requires
                    s > 0,
                    index >= 0,
            ;
            T::lemma_round_trip(*value);
            self@.lemma_write_len(index as nat, value.encode());
        }
        let start = index * self.stride;
        let end = start + self.stride;
        if self.bytes.len() < end {
            self.bytes.resize(end, 0u8);
        }
        let row = value.to_bytes();
        let ghost grown = self.bytes@;
        let mut i: usize = 0;
        while i < self.stride
            invariant
                i <= self.stride,
                self.stride == old(self).stride,
                end == start + self.stride,
                row@.len() == self.stride,
                grown.len() == self.bytes@.len(),
                end <= self.bytes@.len(),
                forall|j: int|
                    0 <= j < self.bytes@.len() ==> self.bytes@[j] == if start <= j < start + i {
                        row@[j - start]
                    } else {
                        grown[j]
                    },
            decreases self.stride - i,
        {
            self.bytes.set(start + i, row[i]);
            i += 1;
        }
        assert(self@.bytes =~= old(self)@.write(index as nat, value.encode()).bytes);
    }
}

/// Conversion into a [`Buffer`] that holds the rows of `self`.
pub trait IntoBuffer: Sized {
    /// The size of one row.
    spec fn spec_stride(&self) -> nat;

    /// The rows, in order.
    spec fn spec_rows(&self) -> Seq<Seq<u8>>;

    fn into_buffer(self) -> (buffer: Buffer)
        requires
            self.spec_rows().len() * self.spec_stride() <= usize::MAX,
        ensures
            buffer.wf(),
            buffer@.stride == self.spec_stride(),
            buffer@.len() == self.spec_rows().len(),
            forall|i: nat| i < self.spec_rows().len() ==> buffer@.row(i) == self.spec_rows()[i as int],
    ;
}

impl<T: Component> IntoBuffer for Vec<T> {
    open spec fn spec_stride(&self) -> nat {
        T::spec_size()
    }

    open spec fn spec_rows(&self) -> Seq<Seq<u8>> {
        Seq::new(self@.len(), |i: int| self@[i].encode())
    }

    fn into_buffer(self) -> (buffer: Buffer) {
        let mut buffer = Buffer::new::<T>();
        let mut i: usize = 0;
        while i < self.len()
            invariant
                i <= self@.len(),
                buffer.wf(),
                buffer@.stride == T::spec_size(),
                buffer@.len() == i,
                self@.len() * T::spec_size() <= usize::MAX,
                forall|j: nat| j < i ==> buffer@.row(j) == self@[j as int].encode(),
            decreases self@.len() - i,
        {
            let ghost before = buffer@;
            let ghost row = self@[i as int].encode();
            proof {
                let s = T::spec_size() as int;
                let n = self@.len() as int;
                assert((i + 1) * s <= n * s) by (nonlinear_arith)
                    requires
                        i + 1 <= n,
                        s > 0,
                ;
            }
            buffer.write_as(i, &self[i]);
            proof {
                T::lemma_round_trip(self@[i as int]);
                before.lemma_write_len(i as nat, row);
                before.lemma_write_then_read(i as nat, row);
                assert forall|j: nat| j < i + 1 implies buffer@.row(j) == self@[j as int].encode() by {
                    if j < i {
                        before.lemma_write_keeps_other_rows(i as nat, row, j);
                    }
                }
            }
            i += 1;
        }
        buffer
    }
}

} // verus!
