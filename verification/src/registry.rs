//! The registry of destination tensors.
//!
//! The registry is supplied by the model-construction collaborator before a
//! load begins: it maps each tensor name to a destination descriptor with
//! the full (unsharded) extents, the element type, and the writable byte
//! buffer the loader fills. The loader never creates tensors.

use vstd::prelude::*;

use crate::cursor::ByteCursor;
use crate::element::{blck_size, is_loadable_type, spec_blck_size, spec_type_size, type_size, Type};
use crate::errors::LoadError;

verus! {

/// A destination tensor: its name, its full extents, its element type and
/// the bytes that hold its data.
pub struct TensorDescriptor {
    /// The tensor's logical name, as records refer to it.
    pub name: String,
    /// The number of elements along the contiguous dimension.
    pub ne0: usize,
    /// The number of rows.
    pub ne1: usize,
    /// The element type of the stored data.
    pub element_type: Type,
    /// The destination bytes, row-major with rows of `row_size` bytes.
    pub data: Vec<u8>,
}

/// The mathematical shape of a destination tensor.
#[verifier::ext_equal]
pub struct TensorView {
    pub name: Seq<char>,
    pub ne0: nat,
    pub ne1: nat,
    pub element_type: Type,
    pub data: Seq<u8>,
}

impl View for TensorDescriptor {
    type V = TensorView;

    open spec fn view(&self) -> TensorView {
        TensorView {
            name: self.name@,
            ne0: self.ne0 as nat,
            ne1: self.ne1 as nat,
            element_type: self.element_type,
            data: self.data@,
        }
    }
}

/// The number of bytes of one row of a tensor with first extent `ne0` of
/// type `t`: the row's storage units times the unit size.
pub open spec fn spec_row_size(ne0: nat, t: Type) -> nat {
    (ne0 / spec_blck_size(t)) * spec_type_size(t)
}

impl TensorView {
    /// The total number of elements.
    pub open spec fn nelements(self) -> nat {
        self.ne0 * self.ne1
    }

    /// The bytes of one row.
    pub open spec fn row_size(self) -> nat {
        spec_row_size(self.ne0, self.element_type)
    }

    /// A well-formed destination tensor: its type is one the formats can
    /// carry, its first extent is whole in storage units, its buffer is
    /// exactly its rows, and its element count fits the machine.
    pub open spec fn wf(self) -> bool {
        &&& is_loadable_type(self.element_type)
        &&& self.ne0 % spec_blck_size(self.element_type) == 0
        &&& self.row_size() <= usize::MAX
        &&& self.data.len() == self.row_size() * self.ne1
        &&& self.nelements() <= usize::MAX
    }
}

/// The registry: an ordered collection of destination tensors, looked up
/// by name. Lookups return the first descriptor with a given name.
pub struct TensorRegistry {
    tensors: Vec<TensorDescriptor>,
}

impl View for TensorRegistry {
    type V = Seq<TensorView>;

    closed spec fn view(&self) -> Seq<TensorView> {
        self.tensors@.map_values(|d: TensorDescriptor| d@)
    }
}

/// Every descriptor of the registry is well formed.
pub open spec fn registry_wf(rs: Seq<TensorView>) -> bool {
    forall|i: int| 0 <= i < rs.len() ==> (#[trigger] rs[i]).wf()
}

/// The index of the first descriptor named `name`, or -1 where none is.
pub open spec fn spec_find(rs: Seq<TensorView>, name: Seq<char>) -> int
    decreases rs.len(),
{
    if rs.len() == 0 {
        -1
    } else if rs[0].name == name {
        0
    } else {
        let r = spec_find(rs.subrange(1, rs.len() as int), name);
        if r == -1 {
            -1
        } else {
            r + 1
        }
    }
}

/// What `spec_find` returns: -1 exactly when no descriptor has the name,
/// and otherwise the least index of one that does.
pub proof fn lemma_spec_find(rs: Seq<TensorView>, name: Seq<char>)
    ensures
        spec_find(rs, name) == -1 <==> (forall|i: int|
            0 <= i < rs.len() ==> (#[trigger] rs[i]).name != name),
        spec_find(rs, name) != -1 ==> {
            &&& 0 <= spec_find(rs, name) < rs.len()
            &&& rs[spec_find(rs, name)].name == name
            &&& forall|i: int| 0 <= i < spec_find(rs, name) ==> (#[trigger] rs[i]).name != name
        },
    decreases rs.len(),
{
    if rs.len() != 0 && rs[0].name != name {
        lemma_spec_find(rs.subrange(1, rs.len() as int), name);
        assert forall|i: int| 1 <= i < rs.len() implies rs.subrange(1, rs.len() as int)[i - 1]
            == rs[i] by {}
    }
}

impl TensorRegistry {
    /// An empty registry.
    pub fn new() -> (r: TensorRegistry)
        ensures
            r@ == Seq::<TensorView>::empty(),
    {
        let r = TensorRegistry { tensors: Vec::new() };
        proof {
            assert(r@ =~= Seq::<TensorView>::empty());
        }
        r
    }

    /// The number of registered tensors.
    pub fn len(&self) -> (r: usize)
        ensures
            r == self@.len(),
    {
        self.tensors.len()
    }

    /// The descriptor at index `i`.
    pub fn get(&self, i: usize) -> (r: &TensorDescriptor)
        requires
            i < self@.len(),
        ensures
            r@ == self@[i as int],
    {
        &self.tensors[i]
    }

    /// Register a destination tensor of the given shape with a zeroed
    /// buffer of exactly the right size. Returns false, and registers
    /// nothing, where the type is not one the formats can carry, where the
    /// first extent is not whole in storage units, or where the needed
    /// buffer or the element count does not fit the machine.
    pub fn register(&mut self, name: String, ne0: usize, ne1: usize, element_type: Type) -> (r:
        bool)
        ensures
            r <==> {
                &&& is_loadable_type(element_type)
                &&& (ne0 as nat) % spec_blck_size(element_type) == 0
                &&& spec_row_size(ne0 as nat, element_type) <= usize::MAX
                &&& spec_row_size(ne0 as nat, element_type) * ne1 <= usize::MAX
                &&& ne0 * ne1 <= usize::MAX
            },
            r ==> final(self)@ == old(self)@.push(
                TensorView {
                    name: name@,
                    ne0: ne0 as nat,
                    ne1: ne1 as nat,
                    element_type,
                    data: Seq::new((spec_row_size(ne0 as nat, element_type) * ne1) as nat, |i: int| 0u8),
                },
            ),
            r ==> final(self)@.last().wf(),
            !r ==> final(self)@ == old(self)@,
    {
        match element_type {
            Type::F32 | Type::F16 | Type::Q4_0 | Type::Q4_1 => {},
            _ => {
                return false;
            },
        }
        let blck = blck_size(element_type);
        let ts = type_size(element_type);
        if ne0 % blck != 0 {
            return false;
        }
        let units = ne0 / blck;
        let row = match units.checked_mul(ts) {
            Some(row) => row,
            None => {
                return false;
            },
        };
        let size = match row.checked_mul(ne1) {
            Some(size) => size,
            None => {
                return false;
            },
        };
        if ne0.checked_mul(ne1).is_none() {
            return false;
        }
        let mut data: Vec<u8> = Vec::new();
        while data.len() < size
            invariant
                data.len() <= size,
                data@ =~= Seq::new(data.len() as nat, |i: int| 0u8),
            decreases size - data.len(),
        {
            data.push(0u8);
        }
        let d = TensorDescriptor { name, ne0, ne1, element_type, data };
        self.tensors.push(d);
        proof {
            assert(self@ =~= old(self)@.push(self.tensors@.last()@));
        }
        true
    }

    /// The index of the first tensor named `name`, where one exists.
    pub fn find(&self, name: &String) -> (r: Option<usize>)
        ensures
            r is Some ==> r->Some_0 == spec_find(self@, name@),
            r is None ==> spec_find(self@, name@) == -1,
    {
        proof {
            lemma_spec_find(self@, name@);
        }
        let n = self.tensors.len();
        let mut i: usize = 0;
        while i < n
            invariant
                i <= n,
                n == self@.len(),
                forall|j: int| 0 <= j < i ==> (#[trigger] self@[j]).name != name@,
            decreases n - i,
        {
            if self.tensors[i].name == *name {
                proof {
                    lemma_spec_find(self@, name@);
                    assert(self@[i as int].name == name@);
                    assert(spec_find(self@, name@) != -1);
                    let r = spec_find(self@, name@);
                    if r < i {
                        assert(self@[r].name != name@);
                        assert(false);
                    }
                    if r > i {
                        assert(self@[i as int].name != name@);
                        assert(false);
                    }
                }
                return Some(i);
            }
            i = i + 1;
        }
        None
    }
}

} // verus!

// The byte-splicing model of the loader's writes, and the method that
// performs them: reading consecutive row slices from a stream and writing
// each at its destination offset.

verus! {

broadcast use vstd::arithmetic::mul::group_mul_basics;

/// `data` with `src` written over the range starting at `off`.
pub open spec fn write_seq(data: Seq<u8>, off: int, src: Seq<u8>) -> Seq<u8> {
    Seq::new(
        data.len(),
        |j: int|
            if off <= j < off + src.len() {
                src[j - off]
            } else {
                data[j]
            },
    )
}

/// `data` after `nrows` consecutive slices of `slice` bytes each, taken
/// from `s` starting at `src0`, have been written at `dest0`,
/// `dest0 + stride`, `dest0 + 2 * stride`, and so on.
pub open spec fn splice_rows(
    data: Seq<u8>,
    s: Seq<u8>,
    src0: int,
    nrows: int,
    slice: int,
    dest0: int,
    stride: int,
) -> Seq<u8>
    decreases nrows,
{
    if nrows <= 0 {
        data
    } else {
        write_seq(
            splice_rows(data, s, src0, nrows - 1, slice, dest0, stride),
            dest0 + (nrows - 1) * stride,
            s.subrange(src0 + (nrows - 1) * slice, src0 + (nrows - 1) * slice + slice),
        )
    }
}

/// Splicing never changes the length of the destination.
pub proof fn lemma_splice_rows_len(
    data: Seq<u8>,
    s: Seq<u8>,
    src0: int,
    nrows: int,
    slice: int,
    dest0: int,
    stride: int,
)
    ensures
        splice_rows(data, s, src0, nrows, slice, dest0, stride).len() == data.len(),
    decreases nrows,
{
    if nrows > 0 {
        lemma_splice_rows_len(data, s, src0, nrows - 1, slice, dest0, stride);
    }
}

/// How many whole `slice`-byte rows of the `nrows` requested a stream of
/// `slen` bytes still holds from position `pos`.
pub open spec fn rows_readable(slen: int, pos: int, nrows: int, slice: int) -> int {
    if pos + nrows * slice <= slen {
        nrows
    } else {
        (slen - pos) / slice
    }
}

impl TensorRegistry {
    /// Read `nrows` slices of `slice` bytes each from the stream and write
    /// them into tensor `idx` at `dest0`, `dest0 + stride`, and so on.
    /// Rows before the one on which the stream runs short stay written;
    /// the short row fails with a short-read error and writes nothing.
    pub fn fill_rows(
        &mut self,
        idx: usize,
        c: &mut ByteCursor,
        nrows: usize,
        slice: usize,
        dest0: usize,
        stride: usize,
    ) -> (r: Result<(), LoadError>)
        requires
            idx < old(self)@.len(),
            slice <= stride,
            old(c).pos <= old(c).data.len(),
            nrows >= 1 ==> dest0 + (nrows - 1) * stride + slice <= old(self)@[idx as int].data.len(),
        ensures
            final(c).data == old(c).data,
            ({
                let s = old(c).data@;
                let p = old(c).pos as int;
                let d0 = old(self)@[idx as int];
                let nread = rows_readable(s.len() as int, p, nrows as int, slice as int);
                let spliced = splice_rows(
                    d0.data,
                    s,
                    p,
                    nread,
                    slice as int,
                    dest0 as int,
                    stride as int,
                );
                &&& final(self)@ == old(self)@.update(
                    idx as int,
                    (TensorView {
                        name: d0.name,
                        ne0: d0.ne0,
                        ne1: d0.ne1,
                        element_type: d0.element_type,
                        data: spliced,
                    }),
                )
                &&& final(c).pos == p + nread * slice
                &&& 0 <= nread <= nrows
                &&& (nread == nrows <==> r is Ok)
                &&& (nread < nrows ==> r == Result::<(), LoadError>::Err(
                    LoadError::ReadExactFailed { bytes: slice },
                ))
            }),
    {
        let ghost s = c.data@;
        let ghost p0 = c.pos as int;
        let ghost d0 = self@[idx as int];
        let dlen = self.tensors[idx].data.len();
        proof {
            assert(dlen == d0.data.len());
        }
        let mut i1: usize = 0;
        while i1 < nrows
            invariant
                idx < self@.len(),
                (idx as int) < old(self)@.len(),
                self@.len() == old(self)@.len(),
                i1 <= nrows,
                slice <= stride,
                c.data == old(c).data,
                s == c.data@,
                p0 == old(c).pos as int,
                c.pos == p0 + i1 * slice,
                0 <= p0,
                p0 + i1 * slice <= s.len(),
                nrows >= 1 ==> dest0 + (nrows - 1) * stride + slice <= d0.data.len(),
                dlen == d0.data.len(),
                self@ == old(self)@.update(
                    idx as int,
                    (TensorView {
                        name: d0.name,
                        ne0: d0.ne0,
                        ne1: d0.ne1,
                        element_type: d0.element_type,
                        data: splice_rows(
                            d0.data,
                            s,
                            p0,
                            i1 as int,
                            slice as int,
                            dest0 as int,
                            stride as int,
                        ),
                    }),
                ),
                d0 == old(self)@[idx as int],
                self@[idx as int] == (TensorView {
                    name: d0.name,
                    ne0: d0.ne0,
                    ne1: d0.ne1,
                    element_type: d0.element_type,
                    data: splice_rows(
                        d0.data,
                        s,
                        p0,
                        i1 as int,
                        slice as int,
                        dest0 as int,
                        stride as int,
                    ),
                }),
            decreases nrows - i1,
        {
            proof {
                vstd::arithmetic::mul::lemma_mul_inequality(
                    i1 as int,
                    nrows - 1,
                    stride as int,
                );
                vstd::arithmetic::mul::lemma_mul_inequality(i1 as int, nrows - 1, slice as int);
                assert((i1 + 1) * slice == i1 * slice + slice) by (nonlinear_arith);
                assert(nrows * slice >= (i1 + 1) * slice) by (nonlinear_arith)
                    requires
                        0 <= i1 + 1 <= nrows,
                        0 <= slice,
                ;
                lemma_splice_rows_len(
                    d0.data,
                    s,
                    p0,
                    i1 as int,
                    slice as int,
                    dest0 as int,
                    stride as int,
                );
            }
            let row = match crate::cursor::read_bytes(c, slice) {
                Ok(row) => row,
                Err(e) => {
                    proof {
                        let slen = s.len() as int;
                        assert(p0 + (i1 + 1) * slice > slen);
                        assert(p0 + (nrows as int) * slice > slen);
                        assert((slen - p0) / (slice as int) == i1 as int) by (nonlinear_arith)
                            requires
                                1 <= slice,
                                (i1 as int) * (slice as int) <= slen - p0,
                                slen - p0 < (i1 as int + 1) * (slice as int),
                        ;
                        assert(rows_readable(slen, p0, nrows as int, slice as int) == i1 as int);
                    }
                    return Err(e);
                },
            };
            let off = dest0 + i1 * stride;
            let ghost before = self@[idx as int].data;
            proof {
                assert(self@[idx as int] == self.tensors@[idx as int]@);
                assert(self.tensors@[idx as int]@.name == d0.name);
                assert(before == splice_rows(
                    d0.data,
                    s,
                    p0,
                    i1 as int,
                    slice as int,
                    dest0 as int,
                    stride as int,
                ));
                assert(before.len() == d0.data.len());
                assert(off + slice <= before.len());
            }
            let ghost tens_prev = self.tensors@;
            let ghost view_prev = self@;
            let t = &mut self.tensors[idx];
            proof {
                assert(t.data@ == before);
            }
            let mut k: usize = 0;
            while k < slice
                invariant
                    k <= slice,
                    off + slice <= t.data.len(),
                    row@.len() == slice,
                    t.data@.len() == before.len(),
                    t@.name == d0.name,
                    t@.ne0 == d0.ne0,
                    t@.ne1 == d0.ne1,
                    t@.element_type == d0.element_type,
                    forall|m: int|
                        0 <= m < before.len() ==> t.data@[m] == (if off <= m < off + k {
                            row@[m - off]
                        } else {
                            before[m]
                        }),
                decreases slice - k,
            {
                t.data[off + k] = row[k];
                k = k + 1;
            }
            proof {
                assert(t.data@ =~= write_seq(before, off as int, row@));
            }
            i1 = i1 + 1;
            proof {
                let ghost r_src = s.subrange(
                    p0 + (i1 as int - 1) * slice,
                    p0 + (i1 as int - 1) * slice + slice,
                );
                assert(row@ == r_src);
                assert(splice_rows(
                    d0.data,
                    s,
                    p0,
                    i1 as int,
                    slice as int,
                    dest0 as int,
                    stride as int,
                ) == write_seq(
                    splice_rows(
                        d0.data,
                        s,
                        p0,
                        i1 as int - 1,
                        slice as int,
                        dest0 as int,
                        stride as int,
                    ),
                    dest0 + (i1 as int - 1) * stride,
                    r_src,
                ));
                assert(self.tensors@[idx as int]@.data =~= write_seq(
                    before,
                    off as int,
                    row@,
                ));
                assert(self.tensors@[idx as int]@.name == d0.name
                    && self.tensors@[idx as int]@.ne0 == d0.ne0
                    && self.tensors@[idx as int]@.ne1 == d0.ne1
                    && self.tensors@[idx as int]@.element_type == d0.element_type);
                assert(self.tensors@ == tens_prev.update(
                    idx as int,
                    self.tensors@[idx as int],
                ));
                let tv_old = TensorView {
                    name: d0.name,
                    ne0: d0.ne0,
                    ne1: d0.ne1,
                    element_type: d0.element_type,
                    data: splice_rows(
                        d0.data,
                        s,
                        p0,
                        i1 as int - 1,
                        slice as int,
                        dest0 as int,
                        stride as int,
                    ),
                };
                assert(view_prev == old(self)@.update(idx as int, tv_old));
                assert(view_prev.len() == old(self)@.update(idx as int, tv_old).len());
                assert((idx as int) < old(self)@.len());
                assert(old(self)@.update(idx as int, tv_old).len() == old(self)@.len()) by {
                    vstd::seq::axiom_seq_update_len::<TensorView>(old(self)@, idx as int, tv_old);
                }
                assert(self@.len() == self.tensors@.len());
                assert(self.tensors@.len() == tens_prev.len());
                assert(view_prev.len() == tens_prev.len());
                assert(view_prev.len() == old(self)@.len());
                assert forall|j: int| 0 <= j < self@.len() && j != idx as int implies self@[j]
                    == old(self)@[j] by {
                    assert(self@[j] == self.tensors@[j]@);
                    assert(self.tensors@[j] == tens_prev[j]);
                    assert(view_prev[j] == tens_prev[j]@);
                    assert(old(self)@.update(idx as int, tv_old)[j] == old(self)@[j]);
                    assert(view_prev[j] == old(self)@[j]);
                }
                assert(self@ =~~= old(self)@.update(
                    idx as int,
                    (TensorView {
                        name: d0.name,
                        ne0: d0.ne0,
                        ne1: d0.ne1,
                        element_type: d0.element_type,
                        data: splice_rows(
                            d0.data,
                            s,
                            p0,
                            i1 as int,
                            slice as int,
                            dest0 as int,
                            stride as int,
                        ),
                    }),
                ));
            }
        }
        proof {
            assert(rows_readable(s.len() as int, p0, nrows as int, slice as int) == nrows as int);
        }
        Ok(())
    }
}

} // verus!

// The pointwise reading of a splice: which destination byte ends up
// holding which stream byte, and which bytes stay untouched.

verus! {

/// Whether position `j` falls inside one of the `nrows` written windows.
pub open spec fn in_splice_window(
    j: int,
    dest0: int,
    stride: int,
    slice: int,
    nrows: int,
) -> bool {
    exists|i1: int|
        0 <= i1 < nrows && dest0 + #[trigger] (i1 * stride) <= j < dest0 + i1 * stride + slice
}

/// Where each written byte of a splice comes from, and that every byte
/// outside the written windows keeps its old value.
pub proof fn lemma_splice_rows_pointwise(
    data: Seq<u8>,
    s: Seq<u8>,
    src0: int,
    nrows: int,
    slice: int,
    dest0: int,
    stride: int,
)
    requires
        0 <= slice <= stride,
        0 <= dest0,
        0 <= src0,
        0 <= nrows,
        nrows >= 1 ==> dest0 + (nrows - 1) * stride + slice <= data.len(),
        src0 + nrows * slice <= s.len(),
    ensures
        splice_rows(data, s, src0, nrows, slice, dest0, stride).len() == data.len(),
        forall|i1: int, k: int|
            0 <= i1 < nrows && 0 <= k < slice ==> #[trigger] splice_rows(
                data,
                s,
                src0,
                nrows,
                slice,
                dest0,
                stride,
            )[dest0 + i1 * stride + k] == s[src0 + i1 * slice + k],
        forall|j: int|
            0 <= j < data.len() && !in_splice_window(j, dest0, stride, slice, nrows)
                ==> splice_rows(data, s, src0, nrows, slice, dest0, stride)[j] == data[j],
    decreases nrows,
{
    broadcast use vstd::arithmetic::mul::group_mul_basics;

    lemma_splice_rows_len(data, s, src0, nrows, slice, dest0, stride);
    if nrows >= 1 {
        lemma_splice_rows_len(data, s, src0, nrows - 1, slice, dest0, stride);
        assert((nrows - 1) * stride >= 0) by (nonlinear_arith)
            requires
                nrows >= 1,
                stride >= 0,
        ;
        if nrows >= 2 {
            assert(dest0 + (nrows - 2) * stride + slice <= data.len()) by (nonlinear_arith)
                requires
                    nrows >= 2,
                    0 <= slice <= stride,
                    dest0 + (nrows - 1) * stride + slice <= data.len(),
            ;
        }
        assert(src0 + (nrows - 1) * slice <= s.len() && (nrows - 1) * slice >= 0 && (nrows - 1)
            * slice + slice == nrows * slice) by (nonlinear_arith)
            requires
                nrows >= 1,
                slice >= 0,
                src0 + nrows * slice <= s.len(),
        ;
        lemma_splice_rows_pointwise(data, s, src0, nrows - 1, slice, dest0, stride);
        let prev = splice_rows(data, s, src0, nrows - 1, slice, dest0, stride);
        let cur = splice_rows(data, s, src0, nrows, slice, dest0, stride);
        let off = dest0 + (nrows - 1) * stride;
        let row_src = s.subrange(src0 + (nrows - 1) * slice, src0 + (nrows - 1) * slice + slice);
        assert(cur == write_seq(prev, off, row_src));
        assert forall|i1: int, k: int| 0 <= i1 < nrows && 0 <= k < slice implies #[trigger] cur[dest0
            + i1 * stride + k] == s[src0 + i1 * slice + k] by {
            if i1 == nrows - 1 {
                assert(cur[off + k] == row_src[k]);
            } else {
                assert(i1 * stride + slice <= (nrows - 1) * stride) by (nonlinear_arith)
                    requires
                        0 <= i1 <= nrows - 2,
                        0 <= slice <= stride,
                ;
                assert(cur[dest0 + i1 * stride + k] == prev[dest0 + i1 * stride + k]);
            }
        }
        assert forall|j: int|
            0 <= j < data.len() && !in_splice_window(j, dest0, stride, slice, nrows) implies cur[j]
            == data[j] by {
            assert(!in_splice_window(j, dest0, stride, slice, nrows - 1));
            assert(!(off <= j < off + slice));
            assert(cur[j] == prev[j]);
        }
    }
}

} // verus!
