//! The multi-part weight loader for the unversioned and Ggmf containers.
//!
//! Each part file carries, after a shared metadata offset, a stream of
//! tensor records. The loader walks every record of every part, validates
//! the declared shape against the registry's destination tensor, derives
//! the split axis from the tensor's name, and copies (or skips) exactly
//! the byte ranges that the part owns.

use vstd::prelude::*;

use crate::cursor::{bytes_to_string, le_u32_at, read_bytes, read_u32, ByteCursor};
use crate::element::{spec_blck_size, spec_ftype_to_type, spec_type_size, type_size, Type};
use crate::errors::{LoadError, LoadErrorView};
use crate::registry::{
    registry_wf, rows_readable, spec_find, splice_rows, lemma_spec_find, lemma_splice_rows_len,
    lemma_splice_rows_pointwise, TensorRegistry, TensorView,
};
use crate::split::{spec_split_axis, split_axis, SplitAxis};

verus! {

broadcast use vstd::arithmetic::mul::group_mul_basics;

/// One file of a part set: the label that names it in events and errors,
/// and its full contents.
pub struct PartFile {
    /// The path the part was read from, as shown to the user.
    pub path: String,
    /// The part's bytes.
    pub data: Vec<u8>,
}

/// A progress event, reported synchronously at well-defined checkpoints.
#[derive(Debug, Clone)]
pub enum LoadProgress {
    /// A part file is about to be processed.
    PartLoading { file: String, current_part: usize, total_parts: usize },
    /// One tensor record of a part has been loaded; the index is 1-based.
    PartTensorLoaded { file: String, current_tensor: usize, tensor_count: usize },
    /// A part has been processed to its end.
    PartLoaded { file: String, byte_size: usize, tensor_count: usize },
}

/// The shape of a [`LoadProgress`] for specifications.
pub enum LoadProgressView {
    PartLoading { file: Seq<char>, current_part: int, total_parts: int },
    PartTensorLoaded { file: Seq<char>, current_tensor: int, tensor_count: int },
    PartLoaded { file: Seq<char>, byte_size: int, tensor_count: int },
}

impl View for LoadProgress {
    type V = LoadProgressView;

    open spec fn view(&self) -> LoadProgressView {
        match self {
            LoadProgress::PartLoading { file, current_part, total_parts } => {
                LoadProgressView::PartLoading {
                    file: file@,
                    current_part: *current_part as int,
                    total_parts: *total_parts as int,
                }
            },
            LoadProgress::PartTensorLoaded { file, current_tensor, tensor_count } => {
                LoadProgressView::PartTensorLoaded {
                    file: file@,
                    current_tensor: *current_tensor as int,
                    tensor_count: *tensor_count as int,
                }
            },
            LoadProgress::PartLoaded { file, byte_size, tensor_count } => {
                LoadProgressView::PartLoaded {
                    file: file@,
                    byte_size: *byte_size as int,
                    tensor_count: *tensor_count as int,
                }
            },
        }
    }
}

/// The view of a sequence of progress events.
pub open spec fn events_view(evs: Seq<LoadProgress>) -> Seq<LoadProgressView> {
    evs.map_values(|e: LoadProgress| e@)
}

/// One tensor record as read from the stream: the declared rank, element
/// encoding, extents and name. It exists only for the duration of
/// processing one record.
pub struct TensorRecord {
    /// The declared rank; the formats use 0, 1 or 2.
    pub n_dims: u32,
    /// The declared on-disk element encoding.
    pub ftype: u32,
    /// The declared extent of the contiguous dimension.
    pub ne0: usize,
    /// The declared number of rows; 1 unless the rank is 2.
    pub ne1: usize,
    /// The product of the declared extents.
    pub nelements: usize,
    /// The tensor's name, decoded from UTF-8.
    pub name: String,
    /// The raw bytes of the name, as the split policy reads them.
    pub name_bytes: Vec<u8>,
}

/// The mathematical content of a parsed record.
#[verifier::ext_equal]
pub struct RecordView {
    pub n_dims: int,
    pub ftype: u32,
    pub ne0: int,
    pub ne1: int,
    pub name: Seq<u8>,
    pub name_chars: Seq<char>,
    /// The stream position just after the name, where the data begins.
    pub end: int,
}

/// What parsing one record yields: the record and where its data starts,
/// or the error and the position the cursor stops at.
pub enum RecordParse {
    Fail { err: LoadErrorView, pos: int },
    Parsed { rec: RecordView },
}

/// Parse one record header at position `p` of `s`: rank, name length,
/// element encoding, extents, then the name itself. Mirrors the order in
/// which the fields stand in the file, so the first missing or malformed
/// field decides the error.
pub open spec fn spec_parse_record(s: Seq<u8>, p: int) -> RecordParse {
    let len = s.len() as int;
    if p + 4 > len {
        RecordParse::Fail { err: (LoadErrorView::ReadExactFailed { bytes: 4 }), pos: p }
    } else {
        let nd = le_u32_at(s, p);
        if nd >= 0x8000_0000 {
            RecordParse::Fail { err: LoadErrorView::InvalidIntegerConversion, pos: p + 4 }
        } else if p + 8 > len {
            RecordParse::Fail { err: (LoadErrorView::ReadExactFailed { bytes: 4 }), pos: p + 4 }
        } else {
            let nl = le_u32_at(s, p + 4);
            if p + 12 > len {
                RecordParse::Fail {
                    err: (LoadErrorView::ReadExactFailed { bytes: 4 }),
                    pos: p + 8,
                }
            } else {
                let ft = le_u32_at(s, p + 8);
                if nd >= 1 && p + 16 > len {
                    RecordParse::Fail {
                        err: (LoadErrorView::ReadExactFailed { bytes: 4 }),
                        pos: p + 12,
                    }
                } else if nd >= 1 && le_u32_at(s, p + 12) >= 0x8000_0000 {
                    RecordParse::Fail { err: LoadErrorView::InvalidIntegerConversion, pos: p + 16 }
                } else if nd >= 2 && p + 20 > len {
                    RecordParse::Fail {
                        err: (LoadErrorView::ReadExactFailed { bytes: 4 }),
                        pos: p + 16,
                    }
                } else if nd >= 2 && le_u32_at(s, p + 16) >= 0x8000_0000 {
                    RecordParse::Fail { err: LoadErrorView::InvalidIntegerConversion, pos: p + 20 }
                } else {
                    let ne0 = if nd >= 1 { le_u32_at(s, p + 12) } else { 1 };
                    let ne1 = if nd >= 2 { le_u32_at(s, p + 16) } else { 1 };
                    let q = p + 12 + 4 * (if nd >= 2 { 2int } else { nd });
                    if nd > 2 || ne0 * ne1 > usize::MAX {
                        RecordParse::Fail { err: LoadErrorView::InvalidIntegerConversion, pos: q }
                    } else if nl >= 0x8000_0000 {
                        RecordParse::Fail { err: LoadErrorView::InvalidIntegerConversion, pos: q }
                    } else if q + nl > len {
                        RecordParse::Fail {
                            err: (LoadErrorView::ReadExactFailed { bytes: nl }),
                            pos: q,
                        }
                    } else {
                        let raw = s.subrange(q, q + nl);
                        if !vstd::utf8::valid_utf8(raw) {
                            RecordParse::Fail { err: LoadErrorView::InvalidUtf8, pos: q + nl }
                        } else {
                            RecordParse::Parsed {
                                rec: RecordView {
                                    n_dims: nd,
                                    ftype: ft as u32,
                                    ne0,
                                    ne1,
                                    name: raw,
                                    name_chars: vstd::utf8::decode_utf8(raw),
                                    end: q + nl,
                                },
                            }
                        }
                    }
                }
            }
        }
    }
}

/// Read one record header and name from the stream.
fn read_tensor_record(c: &mut ByteCursor) -> (r: Result<TensorRecord, LoadError>)
    ensures
        final(c).data == old(c).data,
        ({
            match spec_parse_record(old(c).data@, old(c).pos as int) {
                RecordParse::Fail { err, pos } => {
                    &&& r is Err
                    &&& r->Err_0@ == err
                    &&& final(c).pos == pos
                },
                RecordParse::Parsed { rec } => {
                    &&& r is Ok
                    &&& final(c).pos == rec.end
                    &&& r->Ok_0.n_dims as int == rec.n_dims
                    &&& r->Ok_0.ftype == rec.ftype
                    &&& r->Ok_0.ne0 as int == rec.ne0
                    &&& r->Ok_0.ne1 as int == rec.ne1
                    &&& r->Ok_0.nelements as int == rec.ne0 * rec.ne1
                    &&& r->Ok_0.name@ == rec.name_chars
                    &&& r->Ok_0.name_bytes@ == rec.name
                },
            }
        }),
{
    let n_dims = match read_u32(c) {
        Ok(v) => v,
        Err(e) => {
            return Err(e);
        },
    };
    if n_dims >= 0x8000_0000 {
        return Err(LoadError::InvalidIntegerConversion);
    }
    let name_len = match read_u32(c) {
        Ok(v) => v,
        Err(e) => {
            return Err(e);
        },
    };
    let ftype = match read_u32(c) {
        Ok(v) => v,
        Err(e) => {
            return Err(e);
        },
    };
    let mut ne0: usize = 1;
    let mut ne1: usize = 1;
    if n_dims >= 1 {
        let v = match read_u32(c) {
            Ok(v) => v,
            Err(e) => {
                return Err(e);
            },
        };
        if v >= 0x8000_0000 {
            return Err(LoadError::InvalidIntegerConversion);
        }
        ne0 = v as usize;
    }
    if n_dims >= 2 {
        let v = match read_u32(c) {
            Ok(v) => v,
            Err(e) => {
                return Err(e);
            },
        };
        if v >= 0x8000_0000 {
            return Err(LoadError::InvalidIntegerConversion);
        }
        ne1 = v as usize;
    }
    if n_dims > 2 {
        return Err(LoadError::InvalidIntegerConversion);
    }
    let nelements = match ne0.checked_mul(ne1) {
        Some(n) => n,
        None => {
            return Err(LoadError::InvalidIntegerConversion);
        },
    };
    if name_len >= 0x8000_0000 {
        return Err(LoadError::InvalidIntegerConversion);
    }
    let name_bytes = match read_bytes(c, name_len as usize) {
        Ok(b) => b,
        Err(e) => {
            return Err(e);
        },
    };
    let name = match bytes_to_string(&name_bytes) {
        Some(s) => s,
        None => {
            return Err(LoadError::InvalidUtf8);
        },
    };
    Ok(TensorRecord { n_dims, ftype, ne0, ne1, nelements, name, name_bytes })
}

/// The first validation failure of a record against its destination, or
/// nothing where all checks pass: element count, extents per split axis,
/// element encoding, block divisibility, byte-size arithmetic, and the
/// expected on-disk byte length of this part's slice.
pub open spec fn spec_validate(
    rec: RecordView,
    d: TensorView,
    n_parts: int,
    path: Seq<char>,
) -> Option<LoadErrorView> {
    let nelems = rec.ne0 * rec.ne1;
    let split = spec_split_axis(rec.name);
    let wrong = LoadErrorView::TensorWrongSize { tensor_name: rec.name_chars, path };
    if rec.n_dims == 1 && d.nelements() != nelems {
        Some(wrong)
    } else if rec.n_dims != 1 && d.nelements() as int / n_parts != nelems {
        Some(wrong)
    } else if rec.n_dims == 1 && (d.ne0 != rec.ne0 || d.ne1 != rec.ne1) {
        Some(wrong)
    } else if rec.n_dims != 1 && split is Columns && (d.ne0 as int / n_parts != rec.ne0 || d.ne1
        != rec.ne1) {
        Some(wrong)
    } else if rec.n_dims != 1 && split is Rows && (d.ne0 != rec.ne0 || d.ne1 as int / n_parts
        != rec.ne1) {
        Some(wrong)
    } else if spec_ftype_to_type(rec.ftype) is None {
        Some(
            LoadErrorView::InvalidFtype { tensor_name: rec.name_chars, ftype: rec.ftype, path },
        )
    } else if (rec.ftype == 2 || rec.ftype == 3) && rec.ne0 % 64 != 0 {
        Some(wrong)
    } else {
        let bpe = spec_type_size(spec_ftype_to_type(rec.ftype)->Some_0) as int;
        if nelems * bpe > usize::MAX {
            Some(LoadErrorView::InvalidIntegerConversion)
        } else {
            let expect = nelems * bpe / spec_blck_size(d.element_type) as int;
            if rec.n_dims == 1 || n_parts == 1 {
                if expect != d.data.len() {
                    Some(wrong)
                } else {
                    None
                }
            } else {
                if expect != d.data.len() as int / n_parts {
                    Some(wrong)
                } else {
                    None
                }
            }
        }
    }
}

/// What one record does to the registry: the first error and where the
/// cursor stops, or the updated registry, the position after the record's
/// data, and the bytes the record contributed to the part's total.
pub enum RecordOutcome {
    Fail { err: LoadErrorView, pos: int, reg: Seq<TensorView> },
    Loaded { reg: Seq<TensorView>, pos: int, contributed: int },
}

/// The exact effect of processing one tensor record of part `part_id` of
/// `n_parts` at position `p`: parse, look the name up, validate, then copy
/// (or seek past) the byte ranges this part owns.
pub open spec fn spec_record_outcome(
    s: Seq<u8>,
    p: int,
    path: Seq<char>,
    part_id: int,
    n_parts: int,
    reg: Seq<TensorView>,
) -> RecordOutcome {
    match spec_parse_record(s, p) {
        RecordParse::Fail { err, pos } => RecordOutcome::Fail { err, pos, reg },
        RecordParse::Parsed { rec } => {
            let idx = spec_find(reg, rec.name_chars);
            if idx == -1 {
                RecordOutcome::Fail {
                    err: (LoadErrorView::UnknownTensor { tensor_name: rec.name_chars, path }),
                    pos: rec.end,
                    reg,
                }
            } else {
                let d = reg[idx];
                match spec_validate(rec, d, n_parts, path) {
                    Some(err) => RecordOutcome::Fail { err, pos: rec.end, reg },
                    None => {
                        let row = d.row_size() as int;
                        if rec.n_dims == 1 || n_parts == 1 {
                            let nbytes = d.data.len() as int;
                            if part_id == 0 {
                                if rows_readable(s.len() as int, rec.end, 1, nbytes) == 1 {
                                    RecordOutcome::Loaded {
                                        reg: reg.update(
                                            idx,
                                            (TensorView {
                                                data: splice_rows(
                                                    d.data,
                                                    s,
                                                    rec.end,
                                                    1,
                                                    nbytes,
                                                    0,
                                                    nbytes,
                                                ),
                                                ..d
                                            }),
                                        ),
                                        pos: rec.end + nbytes,
                                        contributed: nbytes,
                                    }
                                } else {
                                    RecordOutcome::Fail {
                                        err: (LoadErrorView::ReadExactFailed { bytes: nbytes }),
                                        pos: rec.end,
                                        reg,
                                    }
                                }
                            } else {
                                RecordOutcome::Loaded {
                                    reg,
                                    pos: if rec.end + nbytes <= usize::MAX {
                                        rec.end + nbytes
                                    } else {
                                        usize::MAX as int
                                    },
                                    contributed: nbytes,
                                }
                            }
                        } else {
                            let split = spec_split_axis(rec.name);
                            let blck = spec_blck_size(d.element_type) as int;
                            let ts = spec_type_size(d.element_type) as int;
                            let nrows = rec.ne1;
                            let slice = if split is Columns {
                                row / n_parts
                            } else {
                                row
                            };
                            let dest0 = if split is Columns {
                                part_id * rec.ne0 / blck * ts
                            } else {
                                part_id * rec.ne1 * row
                            };
                            let nread = rows_readable(s.len() as int, rec.end, nrows, slice);
                            let spliced = splice_rows(
                                d.data,
                                s,
                                rec.end,
                                nread,
                                slice,
                                dest0,
                                row,
                            );
                            if nread == nrows {
                                RecordOutcome::Loaded {
                                    reg: reg.update(idx, (TensorView { data: spliced, ..d })),
                                    pos: rec.end + nrows * slice,
                                    contributed: d.data.len() as int / n_parts,
                                }
                            } else {
                                RecordOutcome::Fail {
                                    err: (LoadErrorView::ReadExactFailed { bytes: slice }),
                                    pos: rec.end + nread * slice,
                                    reg: reg.update(idx, (TensorView { data: spliced, ..d })),
                                }
                            }
                        }
                    },
                }
            }
        },
    }
}

/// The arithmetic bound for a column-sliced write: this part's column
/// offset plus its slice of a row stays inside the row.
proof fn lemma_cols_fit(ne0d: int, ne0r: int, n_parts: int, part_id: int, blck: int, ts: int)
    requires
        1 <= blck,
        0 <= ts,
        1 <= n_parts,
        0 <= part_id < n_parts,
        0 <= ne0r,
        0 <= ne0d,
        ne0d / n_parts == ne0r,
        ne0d % blck == 0,
    ensures
        part_id * ne0r <= ne0d,
        part_id * ne0r / blck * ts + (ne0d / blck) * ts / n_parts <= (ne0d / blck) * ts,
{
    let m = ne0d / blck;
    let u = part_id * ne0r / blck;
    assert(n_parts * ne0r <= ne0d) by (nonlinear_arith)
        requires
            1 <= n_parts,
            ne0d / n_parts == ne0r,
            0 <= ne0d,
    ;
    assert(part_id * ne0r <= ne0d) by (nonlinear_arith)
        requires
            0 <= part_id < n_parts,
            0 <= ne0r,
            n_parts * ne0r <= ne0d,
    ;
    assert(m * blck == ne0d) by (nonlinear_arith)
        requires
            1 <= blck,
            ne0d % blck == 0,
            m == ne0d / blck,
            0 <= ne0d,
    ;
    assert(u * blck <= part_id * ne0r) by (nonlinear_arith)
        requires
            1 <= blck,
            u == part_id * ne0r / blck,
            0 <= part_id * ne0r,
    ;
    assert(n_parts * u <= (n_parts - 1) * m) by (nonlinear_arith)
        requires
            1 <= blck,
            1 <= n_parts,
            u * blck <= part_id * ne0r,
            part_id <= n_parts - 1,
            0 <= ne0r,
            0 <= u,
            n_parts * ne0r <= m * blck,
            0 <= part_id,
    ;
    assert(m * ts / n_parts <= (m - u) * ts) by (nonlinear_arith)
        requires
            1 <= n_parts,
            0 <= ts,
            0 <= u,
            n_parts * u <= (n_parts - 1) * m,
            0 <= m,
    ;
    assert(u * ts + (m - u) * ts == m * ts) by (nonlinear_arith);
}

/// The arithmetic bound for a row-sliced write: this part's run of whole
/// rows ends inside the destination.
proof fn lemma_rows_fit(ne1d: int, ne1r: int, n_parts: int, part_id: int, row: int)
    requires
        1 <= n_parts,
        0 <= part_id < n_parts,
        0 <= ne1r,
        0 <= ne1d,
        0 <= row,
        ne1d / n_parts == ne1r,
    ensures
        part_id * ne1r <= ne1d,
        (part_id * ne1r) * row + ne1r * row <= ne1d * row,
{
    assert(n_parts * ne1r <= ne1d) by (nonlinear_arith)
        requires
            1 <= n_parts,
            ne1d / n_parts == ne1r,
            0 <= ne1d,
    ;
    assert(part_id * ne1r + ne1r <= ne1d) by (nonlinear_arith)
        requires
            0 <= part_id < n_parts,
            0 <= ne1r,
            n_parts * ne1r <= ne1d,
    ;
    assert((part_id * ne1r) * row + ne1r * row <= ne1d * row) by (nonlinear_arith)
        requires
            0 <= row,
            part_id * ne1r + ne1r <= ne1d,
            0 <= part_id * ne1r,
    ;
    assert(part_id * ne1r <= ne1d) by (nonlinear_arith)
        requires
            0 <= ne1r,
            0 <= part_id,
            part_id * ne1r + ne1r <= ne1d,
    ;
}

/// Replacing one tensor's bytes with a same-length sequence keeps every
/// descriptor of the registry well formed.
proof fn lemma_update_preserves_wf(reg: Seq<TensorView>, idx: int, data2: Seq<u8>)
    requires
        registry_wf(reg),
        0 <= idx < reg.len(),
        data2.len() == reg[idx].data.len(),
    ensures
        registry_wf(reg.update(idx, (TensorView { data: data2, ..reg[idx] }))),
{
    let reg2 = reg.update(idx, (TensorView { data: data2, ..reg[idx] }));
    assert forall|i: int| 0 <= i < reg2.len() implies (#[trigger] reg2[i]).wf() by {
        assert(reg[i].wf());
        if i == idx {
            assert(reg2[i].wf());
        } else {
            assert(reg2[i] == reg[i]);
        }
    }
}

/// Process one tensor record of part `part_id`: parse it, look its name up
/// in the registry, validate the declared shape, and copy or skip this
/// part's bytes. Returns the bytes this record contributed to the part's
/// running total. The outcome, error or effect, is exactly
/// [`spec_record_outcome`].
#[verifier::rlimit(100)]
pub fn load_tensor_record(
    c: &mut ByteCursor,
    path: &String,
    part_id: usize,
    n_parts: usize,
    reg: &mut TensorRegistry,
) -> (r: Result<usize, LoadError>)
    requires
        registry_wf(old(reg)@),
        1 <= n_parts,
        part_id < n_parts,
        old(c).pos <= old(c).data.len(),
    ensures
        final(c).data == old(c).data,
        registry_wf(final(reg)@),
        final(reg)@.len() == old(reg)@.len(),
        ({
            let out = spec_record_outcome(
                old(c).data@,
                old(c).pos as int,
                path@,
                part_id as int,
                n_parts as int,
                old(reg)@,
            );
            match out {
                RecordOutcome::Fail { err, pos, reg: rv } => {
                    &&& r is Err
                    &&& r->Err_0@ == err
                    &&& final(c).pos == pos
                    &&& final(reg)@ == rv
                },
                RecordOutcome::Loaded { reg: rv, pos, contributed } => {
                    &&& r is Ok
                    &&& r->Ok_0 as int == contributed
                    &&& final(c).pos == pos
                    &&& final(reg)@ == rv
                },
            }
        }),
{
    let ghost s = c.data@;
    let ghost p = c.pos as int;
    let rec = match read_tensor_record(c) {
        Ok(rec) => rec,
        Err(e) => {
            return Err(e);
        },
    };
    let ghost recv = (spec_parse_record(s, p)->Parsed_rec);
    let idx = match reg.find(&rec.name) {
        Some(idx) => idx,
        None => {
            proof {
                lemma_spec_find(reg@, recv.name_chars);
            }
            return Err(
                LoadError::UnknownTensor { tensor_name: rec.name, path: path.clone() },
            );
        },
    };
    proof {
        lemma_spec_find(reg@, recv.name_chars);
    }
    let ghost d = reg@[idx as int];
    let t_ne0 = reg.get(idx).ne0;
    let t_ne1 = reg.get(idx).ne1;
    let t_type = reg.get(idx).element_type;
    let t_nbytes = reg.get(idx).data.len();
    proof {
        assert(reg@[idx as int].wf());
        assert(d.nelements() == d.ne0 * d.ne1);
    }
    let t_nelements = t_ne0 * t_ne1;
    let split = split_axis(rec.name_bytes.as_slice());

    // Element-count consistency: rank-1 tensors are never sharded; rank-2
    // records carry exactly one part's share of the elements.
    if rec.n_dims == 1 {
        if t_nelements != rec.nelements {
            return Err(
                LoadError::TensorWrongSize { tensor_name: rec.name, path: path.clone() },
            );
        }
    } else {
        if t_nelements / n_parts != rec.nelements {
            return Err(
                LoadError::TensorWrongSize { tensor_name: rec.name, path: path.clone() },
            );
        }
    }
    // Extent consistency, with the sharded axis scaled down by the part
    // count.
    if rec.n_dims == 1 {
        if t_ne0 != rec.ne0 || t_ne1 != rec.ne1 {
            return Err(
                LoadError::TensorWrongSize { tensor_name: rec.name, path: path.clone() },
            );
        }
    } else if matches!(split, SplitAxis::Columns) {
        if t_ne0 / n_parts != rec.ne0 || t_ne1 != rec.ne1 {
            return Err(
                LoadError::TensorWrongSize { tensor_name: rec.name, path: path.clone() },
            );
        }
    } else {
        if t_ne0 != rec.ne0 || t_ne1 / n_parts != rec.ne1 {
            return Err(
                LoadError::TensorWrongSize { tensor_name: rec.name, path: path.clone() },
            );
        }
    }
    // The declared on-disk encoding, and the block-layout divisibility the
    // quantized encodings need.
    let bt = match crate::element::ftype_to_type(rec.ftype) {
        Some(bt) => bt,
        None => {
            return Err(
                LoadError::InvalidFtype {
                    tensor_name: rec.name,
                    ftype: rec.ftype,
                    path: path.clone(),
                },
            );
        },
    };
    if rec.ftype == 2 || rec.ftype == 3 {
        if rec.ne0 % 64 != 0 {
            return Err(
                LoadError::TensorWrongSize { tensor_name: rec.name, path: path.clone() },
            );
        }
    }
    let bpe = type_size(bt);
    let scaled = match rec.nelements.checked_mul(bpe) {
        Some(v) => v,
        None => {
            return Err(LoadError::InvalidIntegerConversion);
        },
    };
    let blck = crate::element::blck_size(t_type);
    let expect = scaled / blck;
    // The expected byte length of this part's slice must exactly match the
    // portion of the destination this part owns.
    if rec.n_dims == 1 || n_parts == 1 {
        if expect != t_nbytes {
            return Err(
                LoadError::TensorWrongSize { tensor_name: rec.name, path: path.clone() },
            );
        }
        if part_id == 0 {
            let res = reg.fill_rows(idx, c, 1, t_nbytes, 0, t_nbytes);
            proof {
                let nread = rows_readable(s.len() as int, recv.end, 1, t_nbytes as int);
                lemma_splice_rows_len(
                    d.data,
                    s,
                    recv.end,
                    nread,
                    t_nbytes as int,
                    0,
                    t_nbytes as int,
                );
                lemma_update_preserves_wf(
                    old(reg)@,
                    idx as int,
                    splice_rows(d.data, s, recv.end, nread, t_nbytes as int, 0, t_nbytes as int),
                );
            }
            match res {
                Ok(()) => {},
                Err(e) => {
                    proof {
                        let slen = s.len() as int;
                        let e0 = recv.end;
                        let nread = rows_readable(slen, e0, 1, t_nbytes as int);
                        assert(nread < 1);
                        assert(nread == 0);
                        assert(splice_rows(d.data, s, e0, 0, t_nbytes as int, 0, t_nbytes as int)
                            == d.data);
                        assert(reg@ =~~= old(reg)@);
                    }
                    return Err(e);
                },
            }
        } else {
            c.skip(t_nbytes);
        }
        Ok(t_nbytes)
    } else {
        if expect != t_nbytes / n_parts {
            return Err(
                LoadError::TensorWrongSize { tensor_name: rec.name, path: path.clone() },
            );
        }
        let ts = type_size(t_type);
        let row = t_ne0 / blck * ts;
        proof {
            assert(row == d.row_size());
            assert(d.data.len() == d.row_size() * d.ne1);
        }
        if matches!(split, SplitAxis::Columns) {
            proof {
                lemma_cols_fit(
                    t_ne0 as int,
                    rec.ne0 as int,
                    n_parts as int,
                    part_id as int,
                    blck as int,
                    ts as int,
                );
                assert((part_id as int) * (rec.ne0 as int) / (blck as int) * (ts as int) + (
                row as int) / (n_parts as int) <= row as int);
            }
            let dest0 = part_id * rec.ne0 / blck * ts;
            let slice = row / n_parts;
            proof {
                if rec.ne1 >= 1 {
                    vstd::arithmetic::mul::lemma_mul_inequality(
                        rec.ne1 as int - 1,
                        d.ne1 as int - 1,
                        row as int,
                    );
                    assert((d.ne1 as int - 1) * row + row == d.ne1 * row) by (nonlinear_arith);
                    assert(d.row_size() * d.ne1 == d.ne1 * d.row_size()) by (nonlinear_arith);
                }
            }
            let res = reg.fill_rows(idx, c, rec.ne1, slice, dest0, row);
            proof {
                let nread = rows_readable(s.len() as int, recv.end, rec.ne1 as int, slice as int);
                lemma_splice_rows_len(
                    d.data,
                    s,
                    recv.end,
                    nread,
                    slice as int,
                    dest0 as int,
                    row as int,
                );
                lemma_update_preserves_wf(
                    old(reg)@,
                    idx as int,
                    splice_rows(d.data, s, recv.end, nread, slice as int, dest0 as int, row as int),
                );
            }
            match res {
                Ok(()) => Ok(t_nbytes / n_parts),
                Err(e) => Err(e),
            }
        } else {
            proof {
                lemma_rows_fit(
                    t_ne1 as int,
                    rec.ne1 as int,
                    n_parts as int,
                    part_id as int,
                    row as int,
                );
                assert(d.row_size() * d.ne1 == d.ne1 * d.row_size()) by (nonlinear_arith);
                if rec.ne1 >= 1 {
                    assert((part_id * rec.ne1) * row + (rec.ne1 - 1) * row + row == (part_id
                        * rec.ne1) * row + rec.ne1 * row) by (nonlinear_arith);
                }
                assert((part_id * rec.ne1) * row <= t_ne1 * row) by (nonlinear_arith)
                    requires
                        part_id * rec.ne1 <= t_ne1,
                        0 <= row,
                ;
            }
            let dest0 = part_id * rec.ne1 * row;
            let res = reg.fill_rows(idx, c, rec.ne1, row, dest0, row);
            proof {
                let nread = rows_readable(s.len() as int, recv.end, rec.ne1 as int, row as int);
                lemma_splice_rows_len(
                    d.data,
                    s,
                    recv.end,
                    nread,
                    row as int,
                    dest0 as int,
                    row as int,
                );
                lemma_update_preserves_wf(
                    old(reg)@,
                    idx as int,
                    splice_rows(d.data, s, recv.end, nread, row as int, dest0 as int, row as int),
                );
            }
            match res {
                Ok(()) => Ok(t_nbytes / n_parts),
                Err(e) => Err(e),
            }
        }
    }
}

} // verus!

// The part-level semantics: running every record of one part in order,
// and the loader loop that realises it.

verus! {

/// The bytes of `s` not yet consumed from position `p`.
pub open spec fn remaining(s: Seq<u8>, p: int) -> nat {
    if p <= s.len() {
        (s.len() - p) as nat
    } else {
        0
    }
}

/// Addition capped at the machine's largest value, as the loader's running
/// byte total uses.
pub open spec fn sat_add(a: int, b: int) -> int {
    if a + b <= usize::MAX {
        a + b
    } else {
        usize::MAX as int
    }
}

/// The state a part's record loop ends in: the first error where one was
/// met, the registry, the records loaded, the bytes contributed, and the
/// final stream position.
pub struct PartRun {
    pub result: Option<LoadErrorView>,
    pub reg: Seq<TensorView>,
    pub n_tensors: int,
    pub total_size: int,
    pub pos: int,
}

/// Run records from position `p` until the stream is exhausted or the
/// first fatal error, threading the registry, the record count and the
/// byte total through.
pub open spec fn spec_run_part(
    s: Seq<u8>,
    p: int,
    path: Seq<char>,
    part_id: int,
    n_parts: int,
    reg: Seq<TensorView>,
    n_tensors: int,
    total: int,
) -> PartRun
    decreases remaining(s, p),
{
    if p >= s.len() {
        PartRun { result: None, reg, n_tensors, total_size: total, pos: p }
    } else {
        match spec_record_outcome(s, p, path, part_id, n_parts, reg) {
            RecordOutcome::Fail { err, pos, reg: rv } => PartRun {
                result: Some(err),
                reg: rv,
                n_tensors,
                total_size: total,
                pos,
            },
            RecordOutcome::Loaded { reg: rv, pos, contributed } => {
                let next = if pos > p {
                    pos
                } else {
                    p + 1
                };
                spec_run_part(
                    s,
                    next,
                    path,
                    part_id,
                    n_parts,
                    rv,
                    n_tensors + 1,
                    sat_add(total, contributed),
                )
            },
        }
    }
}

/// A loaded record always moves the stream position forward past its
/// header, and never moves it backwards.
proof fn lemma_record_outcome_advances(
    s: Seq<u8>,
    p: int,
    path: Seq<char>,
    part_id: int,
    n_parts: int,
    reg: Seq<TensorView>,
)
    requires
        s.len() <= usize::MAX,
        0 <= p,
        1 <= n_parts,
        spec_record_outcome(s, p, path, part_id, n_parts, reg) is Loaded,
    ensures
        spec_record_outcome(s, p, path, part_id, n_parts, reg)->Loaded_pos >= p + 12,
        spec_record_outcome(s, p, path, part_id, n_parts, reg)->Loaded_contributed >= 0,
{
    let parse = spec_parse_record(s, p);
    let rec = parse->Parsed_rec;
    assert(rec.end >= p + 12);
    assert(rec.end <= s.len());
    let out = spec_record_outcome(s, p, path, part_id, n_parts, reg);
    let idx = spec_find(reg, rec.name_chars);
    lemma_spec_find(reg, rec.name_chars);
    let d = reg[idx];
    let row = d.row_size() as int;
    assert(d.data.len() as int / n_parts >= 0) by (nonlinear_arith)
        requires
            1 <= n_parts,
            d.data.len() >= 0,
    ;
    if !(rec.n_dims == 1 || n_parts == 1) {
        let split = spec_split_axis(rec.name);
        let blck = spec_blck_size(d.element_type) as int;
        let ts = spec_type_size(d.element_type) as int;
        let nrows = rec.ne1;
        let slice = if split is Columns {
            row / n_parts
        } else {
            row
        };
        let nread = rows_readable(s.len() as int, rec.end, nrows, slice);
        assert(slice >= 0) by (nonlinear_arith)
            requires
                row >= 0,
                n_parts >= 1,
                slice == row / n_parts || slice == row,
        ;
        assert(nread >= 0) by (nonlinear_arith)
            requires
                nread == rows_readable(s.len() as int, rec.end, nrows, slice),
                rec.end <= s.len(),
                nrows >= 0,
                slice >= 0,
        ;
        assert(nread * slice >= 0) by (nonlinear_arith)
            requires
                nread >= 0,
                slice >= 0,
        ;
        assert(nrows * slice >= 0) by (nonlinear_arith)
            requires
                nrows >= 0,
                slice >= 0,
        ;
    }
}

/// The events one part reports: a loading notice, one notice per loaded
/// record with its 1-based index, and a completion notice where the part
/// ran to its end.
pub open spec fn spec_part_events(
    path: Seq<char>,
    part_id: int,
    n_parts: int,
    n_tensors: int,
    total: int,
    reg_len: int,
    ok: bool,
) -> Seq<LoadProgressView> {
    seq![
        LoadProgressView::PartLoading { file: path, current_part: part_id, total_parts: n_parts },
    ] + Seq::new(
        if n_tensors >= 0 {
            n_tensors as nat
        } else {
            0
        },
        |i: int|
            LoadProgressView::PartTensorLoaded {
                file: path,
                current_tensor: i + 1,
                tensor_count: reg_len,
            },
    ) + (if ok {
        seq![
            LoadProgressView::PartLoaded {
                file: path,
                byte_size: total,
                tensor_count: n_tensors,
            },
        ]
    } else {
        Seq::<LoadProgressView>::empty()
    })
}

/// An exact copy of a byte vector.
fn clone_bytes(v: &Vec<u8>) -> (r: Vec<u8>)
    ensures
        r@ == v@,
{
    let mut r: Vec<u8> = Vec::new();
    let mut i: usize = 0;
    while i < v.len()
        invariant
            i <= v@.len(),
            r@ == v@.subrange(0, i as int),
        decreases v@.len() - i,
    {
        r.push(v[i]);
        i = i + 1;
        proof {
            assert(r@ =~= v@.subrange(0, i as int));
        }
    }
    proof {
        assert(r@ =~= v@);
    }
    r
}

/// Load every tensor record of one part: seek to the shared metadata
/// offset, then walk records until the stream is exhausted, validating and
/// copying each. Reports the part's progress events in order. The whole
/// effect is exactly [`spec_run_part`] started at the offset.
pub fn load_part(
    part: &PartFile,
    part_id: usize,
    n_parts: usize,
    file_offset: usize,
    reg: &mut TensorRegistry,
    events: &mut Vec<LoadProgress>,
) -> (r: Result<(), LoadError>)
    requires
        registry_wf(old(reg)@),
        1 <= n_parts,
        part_id < n_parts,
    ensures
        registry_wf(final(reg)@),
        final(reg)@.len() == old(reg)@.len(),
        ({
            let run = spec_run_part(
                part.data@,
                file_offset as int,
                part.path@,
                part_id as int,
                n_parts as int,
                old(reg)@,
                0,
                0,
            );
            &&& final(reg)@ == run.reg
            &&& (r is Ok <==> run.result is None)
            &&& (run.result is Some ==> r is Err && r->Err_0@ == run.result->Some_0)
            &&& events_view(final(events)@) == events_view(old(events)@) + spec_part_events(
                part.path@,
                part_id as int,
                n_parts as int,
                run.n_tensors,
                run.total_size,
                old(reg)@.len() as int,
                run.result is None,
            )
        }),
{
    let ghost run_all = spec_run_part(
        part.data@,
        file_offset as int,
        part.path@,
        part_id as int,
        n_parts as int,
        old(reg)@,
        0,
        0,
    );
    events.push(
        LoadProgress::PartLoading {
            file: part.path.clone(),
            current_part: part_id,
            total_parts: n_parts,
        },
    );
    let mut c = ByteCursor::new(clone_bytes(&part.data));
    c.seek(file_offset);
    let mut total_size: usize = 0;
    let mut n_tensors: usize = 0;
    proof {
        assert(events_view(events@) =~= events_view(old(events)@) + spec_part_events(
            part.path@,
            part_id as int,
            n_parts as int,
            0,
            0,
            old(reg)@.len() as int,
            false,
        ));
    }
    while !(c.pos >= c.data.len())
        invariant
            registry_wf(reg@),
            1 <= n_parts,
            part_id < n_parts,
            c.data@ == part.data@,
            reg@.len() == old(reg)@.len(),
            total_size <= usize::MAX,
            n_tensors == 0 ==> c.pos == file_offset,
            n_tensors == 0 || 12 * (n_tensors as int) <= c.pos as int - (file_offset as int),
            run_all == spec_run_part(
                part.data@,
                file_offset as int,
                part.path@,
                part_id as int,
                n_parts as int,
                old(reg)@,
                0,
                0,
            ),
            spec_run_part(
                part.data@,
                c.pos as int,
                part.path@,
                part_id as int,
                n_parts as int,
                reg@,
                n_tensors as int,
                total_size as int,
            ) == run_all,
            events_view(events@) == events_view(old(events)@) + spec_part_events(
                part.path@,
                part_id as int,
                n_parts as int,
                n_tensors as int,
                0,
                old(reg)@.len() as int,
                false,
            ),
        decreases remaining(c.data@, c.pos as int),
    {
        let ghost p_before = c.pos as int;
        let ghost reg_before = reg@;
        let ghost out = spec_record_outcome(
            part.data@,
            p_before,
            part.path@,
            part_id as int,
            n_parts as int,
            reg@,
        );
        let contributed = match load_tensor_record(&mut c, &part.path, part_id, n_parts, reg) {
            Ok(v) => v,
            Err(e) => {
                proof {
                    assert(run_all == (PartRun {
                        result: Some(out->Fail_err),
                        reg: out->Fail_reg,
                        n_tensors: n_tensors as int,
                        total_size: total_size as int,
                        pos: out->Fail_pos,
                    }));
                    assert(events_view(events@) =~= events_view(old(events)@) + spec_part_events(
                        part.path@,
                        part_id as int,
                        n_parts as int,
                        run_all.n_tensors,
                        run_all.total_size,
                        old(reg)@.len() as int,
                        false,
                    ));
                }
                return Err(e);
            },
        };
        proof {
            lemma_record_outcome_advances(
                part.data@,
                p_before,
                part.path@,
                part_id as int,
                n_parts as int,
                reg_before,
            );
            assert(12 * (n_tensors as int + 1) == 12 * (n_tensors as int) + 12);
        }
        total_size = total_size.saturating_add(contributed);
        n_tensors = n_tensors + 1;
        let ghost evs_before = events@;
        events.push(
            LoadProgress::PartTensorLoaded {
                file: part.path.clone(),
                current_tensor: n_tensors,
                tensor_count: reg.len(),
            },
        );
        proof {
            assert(events_view(events@) =~= events_view(evs_before).push(events@.last()@));
            assert(events_view(events@) =~= events_view(old(events)@) + spec_part_events(
                part.path@,
                part_id as int,
                n_parts as int,
                n_tensors as int,
                0,
                old(reg)@.len() as int,
                false,
            ));
        }
    }
    proof {
        assert(run_all == (PartRun {
            result: None,
            reg: reg@,
            n_tensors: n_tensors as int,
            total_size: total_size as int,
            pos: c.pos as int,
        }));
    }
    let ghost evs_before2 = events@;
    events.push(
        LoadProgress::PartLoaded {
            file: part.path.clone(),
            byte_size: total_size,
            tensor_count: n_tensors,
        },
    );
    proof {
        assert(events_view(events@) =~= events_view(evs_before2).push(events@.last()@));
        assert(events_view(events@) =~= events_view(old(events)@) + spec_part_events(
            part.path@,
            part_id as int,
            n_parts as int,
            run_all.n_tensors,
            run_all.total_size,
            old(reg)@.len() as int,
            true,
        ));
    }
    Ok(())
}

} // verus!

// The whole load: every part in enumeration order, stopping at the first
// fatal error.

verus! {

/// The mathematical content of a part file.
pub struct PartView {
    pub path: Seq<char>,
    pub data: Seq<u8>,
}

impl View for PartFile {
    type V = PartView;

    open spec fn view(&self) -> PartView {
        PartView { path: self.path@, data: self.data@ }
    }
}

/// The view of a part list.
pub open spec fn parts_view(parts: Seq<PartFile>) -> Seq<PartView> {
    parts.map_values(|p: PartFile| p@)
}

/// The state a whole load ends in: the first fatal error where one was
/// met, the registry, and every progress event reported.
pub struct PartsRun {
    pub result: Option<LoadErrorView>,
    pub reg: Seq<TensorView>,
    pub events: Seq<LoadProgressView>,
}

/// Run the parts from index `i` on, strictly in order, stopping at the
/// first fatal error.
pub open spec fn spec_run_parts(
    parts: Seq<PartView>,
    i: int,
    file_offset: int,
    reg: Seq<TensorView>,
) -> PartsRun
    decreases parts.len() - i,
{
    if i < 0 || i >= parts.len() {
        PartsRun { result: None, reg, events: Seq::<LoadProgressView>::empty() }
    } else {
        let run = spec_run_part(
            parts[i].data,
            file_offset,
            parts[i].path,
            i,
            parts.len() as int,
            reg,
            0,
            0,
        );
        let evs = spec_part_events(
            parts[i].path,
            i,
            parts.len() as int,
            run.n_tensors,
            run.total_size,
            reg.len() as int,
            run.result is None,
        );
        if run.result is Some {
            PartsRun { result: run.result, reg: run.reg, events: evs }
        } else {
            let rest = spec_run_parts(parts, i + 1, file_offset, run.reg);
            PartsRun { result: rest.result, reg: rest.reg, events: evs + rest.events }
        }
    }
}

/// Load the weights of an unversioned or Ggmf model from its parts.
///
/// Every part carries the same record stream after the shared metadata
/// offset; the loader walks the parts strictly in enumeration order,
/// validating every record and copying exactly the byte ranges each part
/// owns, and stops at the first fatal error. The whole effect on the
/// registry and the full event sequence are exactly [`spec_run_parts`].
pub fn load_weights_ggmf_or_unversioned(
    parts: &Vec<PartFile>,
    file_offset: usize,
    reg: &mut TensorRegistry,
    events: &mut Vec<LoadProgress>,
) -> (r: Result<(), LoadError>)
    requires
        registry_wf(old(reg)@),
    ensures
        registry_wf(final(reg)@),
        final(reg)@.len() == old(reg)@.len(),
        ({
            let pr = spec_run_parts(parts_view(parts@), 0, file_offset as int, old(reg)@);
            &&& final(reg)@ == pr.reg
            &&& (r is Ok <==> pr.result is None)
            &&& (pr.result is Some ==> r is Err && r->Err_0@ == pr.result->Some_0)
            &&& events_view(final(events)@) == events_view(old(events)@) + pr.events
        }),
{
    let ghost pv = parts_view(parts@);
    let ghost whole = spec_run_parts(pv, 0, file_offset as int, old(reg)@);
    let n_parts = parts.len();
    let mut i: usize = 0;
    while i < n_parts
        invariant
            registry_wf(reg@),
            n_parts == parts@.len(),
            pv == parts_view(parts@),
            whole == spec_run_parts(pv, 0, file_offset as int, old(reg)@),
            i <= n_parts,
            reg@.len() == old(reg)@.len(),
            whole.result == spec_run_parts(pv, i as int, file_offset as int, reg@).result,
            whole.reg == spec_run_parts(pv, i as int, file_offset as int, reg@).reg,
            events_view(old(events)@) + whole.events == events_view(events@) + spec_run_parts(
                pv,
                i as int,
                file_offset as int,
                reg@,
            ).events,
        decreases n_parts - i,
    {
        proof {
            assert(pv[i as int] == parts@[i as int]@);
        }
        let ghost reg_before = reg@;
        let ghost evs_before = events_view(events@);
        let part = &parts[i];
        match load_part(part, i, n_parts, file_offset, reg, events) {
            Ok(()) => {},
            Err(e) => {
                proof {
                    let rest = spec_run_parts(pv, i as int, file_offset as int, reg_before);
                    assert(rest.result is Some);
                    assert(whole.result == rest.result);
                    assert(events_view(old(events)@) + whole.events =~= events_view(events@));
                }
                return Err(e);
            },
        }
        i = i + 1;
    }
    proof {
        let rest = spec_run_parts(pv, i as int, file_offset as int, reg@);
        assert(rest.events == Seq::<LoadProgressView>::empty());
        assert(events_view(old(events)@) + whole.events =~= events_view(events@));
    }
    Ok(())
}

} // verus!

// The placement laws of the two split policies and of single-part loads.

verus! {

/// Row split: part `part_id` of a set of parts fills exactly the run of
/// whole rows numbered `part_id * ne1r` up to but excluding
/// `(part_id + 1) * ne1r`, each row byte-for-byte from its place in the
/// stream, and touches nothing outside that run. Adjacent parts' runs
/// therefore neither overlap nor leave a gap: each part's run ends where
/// the next part's begins.
pub proof fn lemma_row_split_bands(
    data: Seq<u8>,
    s: Seq<u8>,
    src0: int,
    ne1r: int,
    row: int,
    part_id: int,
    ne1d: int,
)
    requires
        0 <= row,
        0 <= src0,
        0 <= ne1r,
        0 <= part_id,
        0 <= ne1d,
        data.len() == ne1d * row,
        (part_id + 1) * ne1r <= ne1d,
        src0 + ne1r * row <= s.len(),
    ensures
        ({
            let r = splice_rows(data, s, src0, ne1r, row, part_id * ne1r * row, row);
            &&& r.len() == data.len()
            &&& forall|i1: int, k: int|
                0 <= i1 < ne1r && 0 <= k < row ==> #[trigger] r[(part_id * ne1r + i1) * row + k]
                    == s[src0 + i1 * row + k]
            &&& forall|j: int|
                0 <= j < data.len() && (j < part_id * ne1r * row || j >= (part_id + 1) * ne1r
                    * row) ==> r[j] == data[j]
        }),
{
    let dest0 = part_id * ne1r * row;
    assert(0 <= dest0 && (ne1r >= 1 ==> dest0 + (ne1r - 1) * row + row <= data.len()) && dest0
        + ne1r * row == (part_id + 1) * ne1r * row && (part_id + 1) * ne1r * row <= ne1d * row)
        by (nonlinear_arith)
        requires
            0 <= row,
            0 <= ne1r,
            0 <= part_id,
            (part_id + 1) * ne1r <= ne1d,
            data.len() == ne1d * row,
            dest0 == part_id * ne1r * row,
    ;
    lemma_splice_rows_pointwise(data, s, src0, ne1r, row, dest0, row);
    let r = splice_rows(data, s, src0, ne1r, row, dest0, row);
    assert forall|i1: int, k: int| 0 <= i1 < ne1r && 0 <= k < row implies #[trigger] r[(part_id
        * ne1r + i1) * row + k] == s[src0 + i1 * row + k] by {
        assert((part_id * ne1r + i1) * row == dest0 + i1 * row) by (nonlinear_arith)
            requires
                dest0 == part_id * ne1r * row,
        ;
        assert(r[dest0 + i1 * row + k] == s[src0 + i1 * row + k]);
    }
    assert forall|j: int|
        0 <= j < data.len() && (j < dest0 || j >= (part_id + 1) * ne1r * row) implies r[j]
        == data[j] by {
        if crate::registry::in_splice_window(j, dest0, row, row, ne1r) {
            let i1 = choose|i1: int|
                0 <= i1 < ne1r && dest0 + #[trigger] (i1 * row) <= j < dest0 + i1 * row + row;
            assert(dest0 <= j && j < dest0 + ne1r * row) by (nonlinear_arith)
                requires
                    0 <= i1 < ne1r,
                    0 <= row,
                    dest0 + i1 * row <= j < dest0 + i1 * row + row,
            ;
        }
    }
}

/// Column split: part by part, every row `i1` of the destination receives
/// this part's contiguous `slice`-byte column run at the same column
/// offset `dest0` of that row, byte-for-byte from the stream, and the
/// row's bytes outside that column run keep their values. The row stride
/// is the same for every part.
pub proof fn lemma_column_split_bands(
    data: Seq<u8>,
    s: Seq<u8>,
    src0: int,
    ne1d: int,
    row: int,
    slice: int,
    dest0: int,
)
    requires
        0 <= src0,
        0 <= ne1d,
        0 <= slice,
        0 <= dest0,
        dest0 + slice <= row,
        data.len() == ne1d * row,
        src0 + ne1d * slice <= s.len(),
    ensures
        ({
            let r = splice_rows(data, s, src0, ne1d, slice, dest0, row);
            &&& r.len() == data.len()
            &&& forall|i1: int, k: int|
                0 <= i1 < ne1d && 0 <= k < slice ==> #[trigger] r[i1 * row + dest0 + k]
                    == s[src0 + i1 * slice + k]
            &&& forall|i1: int, k: int|
                0 <= i1 < ne1d && 0 <= k < row && (k < dest0 || k >= dest0 + slice)
                    ==> #[trigger] r[i1 * row + k] == data[i1 * row + k]
        }),
{
    assert(ne1d >= 1 ==> dest0 + (ne1d - 1) * row + slice <= data.len()) by (nonlinear_arith)
        requires
            0 <= slice,
            0 <= dest0,
            dest0 + slice <= row,
            0 <= ne1d,
            data.len() == ne1d * row,
    ;
    lemma_splice_rows_pointwise(data, s, src0, ne1d, slice, dest0, row);
    let r = splice_rows(data, s, src0, ne1d, slice, dest0, row);
    assert forall|i1: int, k: int| 0 <= i1 < ne1d && 0 <= k < slice implies #[trigger] r[i1 * row
        + dest0 + k] == s[src0 + i1 * slice + k] by {
        assert(r[dest0 + i1 * row + k] == s[src0 + i1 * slice + k]);
    }
    assert forall|i1: int, k: int|
        0 <= i1 < ne1d && 0 <= k < row && (k < dest0 || k >= dest0 + slice) implies #[trigger] r[i1
        * row + k] == data[i1 * row + k] by {
        let j = i1 * row + k;
        assert(0 <= j < data.len()) by (nonlinear_arith)
            requires
                0 <= i1 < ne1d,
                0 <= k < row,
                data.len() == ne1d * row,
                j == i1 * row + k,
        ;
        if crate::registry::in_splice_window(j, dest0, row, slice, ne1d) {
            let i2 = choose|i2: int|
                0 <= i2 < ne1d && dest0 + #[trigger] (i2 * row) <= j < dest0 + i2 * row + slice;
            assert(i2 == i1) by (nonlinear_arith)
                requires
                    0 <= i2 < ne1d,
                    0 <= i1 < ne1d,
                    0 <= k < row,
                    0 <= dest0,
                    dest0 + slice <= row,
                    j == i1 * row + k,
                    dest0 + i2 * row <= j < dest0 + i2 * row + slice,
            ;
            assert(false);
        }
    }
}

/// With a part count of 1, the only part (part 0) always copies: the
/// seek-past path that parts other than part 0 take in multi-part sets
/// never runs, and every loaded record's whole byte range lands at
/// destination offset 0, byte-for-byte equal to the stream's bytes at the
/// record's data position.
pub proof fn lemma_single_part_record_copies(
    s: Seq<u8>,
    p: int,
    path: Seq<char>,
    reg: Seq<TensorView>,
)
    requires
        0 <= p,
        spec_record_outcome(s, p, path, 0, 1, reg) is Loaded,
    ensures
        ({
            let rec = spec_parse_record(s, p)->Parsed_rec;
            let idx = spec_find(reg, rec.name_chars);
            let out = spec_record_outcome(s, p, path, 0, 1, reg);
            let nbytes = reg[idx].data.len() as int;
            &&& 0 <= idx < reg.len()
            &&& rec.end + nbytes <= s.len()
            &&& out->Loaded_pos == rec.end + nbytes
            &&& out->Loaded_reg == reg.update(
                idx,
                (TensorView { data: s.subrange(rec.end, rec.end + nbytes), ..reg[idx] }),
            )
        }),
{
    let rec = spec_parse_record(s, p)->Parsed_rec;
    let idx = spec_find(reg, rec.name_chars);
    lemma_spec_find(reg, rec.name_chars);
    let d = reg[idx];
    let nbytes = d.data.len() as int;
    let nread = rows_readable(s.len() as int, rec.end, 1, nbytes);
    assert(nread == 1);
    if rec.end + 1 * nbytes > s.len() {
        assert((s.len() - rec.end) / nbytes < 1) by (nonlinear_arith)
            requires
                0 <= s.len() - rec.end,
                1 <= nbytes,
                s.len() - rec.end < nbytes,
        ;
        assert(false);
    }
    assert(rec.end + nbytes <= s.len());
    let spliced = splice_rows(d.data, s, rec.end, 1, nbytes, 0, nbytes);
    assert(splice_rows(d.data, s, rec.end, 0, nbytes, 0, nbytes) == d.data);
    assert(spliced == crate::registry::write_seq(d.data, 0, s.subrange(rec.end, rec.end + nbytes)));
    assert(spliced =~= s.subrange(rec.end, rec.end + nbytes));
}

} // verus!

// The Ggjt loader: one physically contiguous file, records as in the
// multi-part formats but with each tensor's data aligned to a fixed byte
// boundary, and no sharding.

verus! {

/// The alignment, in bytes, of every tensor's data in a Ggjt file.
pub const GGJT_ALIGNMENT: usize = 32;

/// The next position at or after `p` on the alignment boundary.
pub open spec fn spec_align(p: int) -> int {
    sat_add(p, (32 - p % 32) % 32)
}

/// The exact effect of one Ggjt tensor record at position `p`: parse and
/// validate as the multi-part formats do for a single part, then pad the
/// cursor forward to the alignment boundary and copy the whole tensor.
pub open spec fn spec_ggjt_record_outcome(
    s: Seq<u8>,
    p: int,
    path: Seq<char>,
    reg: Seq<TensorView>,
) -> RecordOutcome {
    match spec_parse_record(s, p) {
        RecordParse::Fail { err, pos } => RecordOutcome::Fail { err, pos, reg },
        RecordParse::Parsed { rec } => {
            let idx = spec_find(reg, rec.name_chars);
            if idx == -1 {
                RecordOutcome::Fail {
                    err: (LoadErrorView::UnknownTensor { tensor_name: rec.name_chars, path }),
                    pos: rec.end,
                    reg,
                }
            } else {
                let d = reg[idx];
                match spec_validate(rec, d, 1, path) {
                    Some(err) => RecordOutcome::Fail { err, pos: rec.end, reg },
                    None => {
                        let a = spec_align(rec.end);
                        let nbytes = d.data.len() as int;
                        if a > s.len() {
                            RecordOutcome::Fail {
                                err: (LoadErrorView::ReadExactFailed { bytes: nbytes }),
                                pos: a,
                                reg,
                            }
                        } else if rows_readable(s.len() as int, a, 1, nbytes) == 1 {
                            RecordOutcome::Loaded {
                                reg: reg.update(
                                    idx,
                                    (TensorView {
                                        data: splice_rows(d.data, s, a, 1, nbytes, 0, nbytes),
                                        ..d
                                    }),
                                ),
                                pos: a + nbytes,
                                contributed: nbytes,
                            }
                        } else {
                            RecordOutcome::Fail {
                                err: (LoadErrorView::ReadExactFailed { bytes: nbytes }),
                                pos: a,
                                reg,
                            }
                        }
                    },
                }
            }
        },
    }
}

/// Process one Ggjt tensor record: parse, look up, validate, pad to the
/// alignment boundary, then copy the whole tensor's bytes.
#[verifier::rlimit(100)]
pub fn load_tensor_record_ggjt(
    c: &mut ByteCursor,
    path: &String,
    reg: &mut TensorRegistry,
) -> (r: Result<usize, LoadError>)
    requires
        registry_wf(old(reg)@),
        old(c).pos <= old(c).data.len(),
    ensures
        final(c).data == old(c).data,
        registry_wf(final(reg)@),
        final(reg)@.len() == old(reg)@.len(),
        ({
            let out = spec_ggjt_record_outcome(old(c).data@, old(c).pos as int, path@, old(reg)@);
            match out {
                RecordOutcome::Fail { err, pos, reg: rv } => {
                    &&& r is Err
                    &&& r->Err_0@ == err
                    &&& final(c).pos == pos
                    &&& final(reg)@ == rv
                },
                RecordOutcome::Loaded { reg: rv, pos, contributed } => {
                    &&& r is Ok
                    &&& r->Ok_0 as int == contributed
                    &&& final(c).pos == pos
                    &&& final(reg)@ == rv
                },
            }
        }),
{
    let ghost s = c.data@;
    let ghost p = c.pos as int;
    let rec = match read_tensor_record(c) {
        Ok(rec) => rec,
        Err(e) => {
            return Err(e);
        },
    };
    let ghost recv = (spec_parse_record(s, p)->Parsed_rec);
    let idx = match reg.find(&rec.name) {
        Some(idx) => idx,
        None => {
            proof {
                lemma_spec_find(reg@, recv.name_chars);
            }
            return Err(
                LoadError::UnknownTensor { tensor_name: rec.name, path: path.clone() },
            );
        },
    };
    proof {
        lemma_spec_find(reg@, recv.name_chars);
    }
    let ghost d = reg@[idx as int];
    let t_ne0 = reg.get(idx).ne0;
    let t_ne1 = reg.get(idx).ne1;
    let t_type = reg.get(idx).element_type;
    let t_nbytes = reg.get(idx).data.len();
    proof {
        assert(reg@[idx as int].wf());
        assert(d.nelements() == d.ne0 * d.ne1);
        assert((d.nelements() as int) / 1int == d.nelements() as int);
        assert((d.ne0 as int) / 1int == d.ne0 as int);
        assert((d.ne1 as int) / 1int == d.ne1 as int);
        assert((d.data.len() as int) / 1int == d.data.len() as int);
    }
    let t_nelements = t_ne0 * t_ne1;
    if rec.n_dims == 1 {
        if t_nelements != rec.nelements {
            return Err(
                LoadError::TensorWrongSize { tensor_name: rec.name, path: path.clone() },
            );
        }
    } else {
        if t_nelements != rec.nelements {
            return Err(
                LoadError::TensorWrongSize { tensor_name: rec.name, path: path.clone() },
            );
        }
    }
    if t_ne0 != rec.ne0 || t_ne1 != rec.ne1 {
        return Err(LoadError::TensorWrongSize { tensor_name: rec.name, path: path.clone() });
    }
    let bt = match crate::element::ftype_to_type(rec.ftype) {
        Some(bt) => bt,
        None => {
            return Err(
                LoadError::InvalidFtype {
                    tensor_name: rec.name,
                    ftype: rec.ftype,
                    path: path.clone(),
                },
            );
        },
    };
    if rec.ftype == 2 || rec.ftype == 3 {
        if rec.ne0 % 64 != 0 {
            return Err(
                LoadError::TensorWrongSize { tensor_name: rec.name, path: path.clone() },
            );
        }
    }
    let bpe = type_size(bt);
    let scaled = match rec.nelements.checked_mul(bpe) {
        Some(v) => v,
        None => {
            return Err(LoadError::InvalidIntegerConversion);
        },
    };
    let blck = crate::element::blck_size(t_type);
    let expect = scaled / blck;
    if expect != t_nbytes {
        return Err(LoadError::TensorWrongSize { tensor_name: rec.name, path: path.clone() });
    }
    // Pad the read cursor forward to the next alignment boundary; the
    // tensor's data begins there.
    let pad = (GGJT_ALIGNMENT - (c.pos % GGJT_ALIGNMENT)) % GGJT_ALIGNMENT;
    c.skip(pad);
    if c.pos > c.data.len() {
        return Err(LoadError::ReadExactFailed { bytes: t_nbytes });
    }
    let res = reg.fill_rows(idx, c, 1, t_nbytes, 0, t_nbytes);
    proof {
        let a = spec_align(recv.end);
        let nread = rows_readable(s.len() as int, a, 1, t_nbytes as int);
        lemma_splice_rows_len(d.data, s, a, nread, t_nbytes as int, 0, t_nbytes as int);
        lemma_update_preserves_wf(
            old(reg)@,
            idx as int,
            splice_rows(d.data, s, a, nread, t_nbytes as int, 0, t_nbytes as int),
        );
    }
    match res {
        Ok(()) => Ok(t_nbytes),
        Err(e) => {
            proof {
                let a = spec_align(recv.end);
                let nread = rows_readable(s.len() as int, a, 1, t_nbytes as int);
                assert(nread < 1);
                assert(nread == 0);
                assert(splice_rows(d.data, s, a, 0, t_nbytes as int, 0, t_nbytes as int)
                    == d.data);
                assert(reg@ =~~= old(reg)@);
            }
            Err(e)
        },
    }
}

/// The state a Ggjt load ends in.
pub open spec fn spec_run_ggjt(
    s: Seq<u8>,
    p: int,
    path: Seq<char>,
    reg: Seq<TensorView>,
    n_tensors: int,
    total: int,
) -> PartRun
    decreases remaining(s, p),
{
    if p >= s.len() {
        PartRun { result: None, reg, n_tensors, total_size: total, pos: p }
    } else {
        match spec_ggjt_record_outcome(s, p, path, reg) {
            RecordOutcome::Fail { err, pos, reg: rv } => PartRun {
                result: Some(err),
                reg: rv,
                n_tensors,
                total_size: total,
                pos,
            },
            RecordOutcome::Loaded { reg: rv, pos, contributed } => {
                let next = if pos > p {
                    pos
                } else {
                    p + 1
                };
                spec_run_ggjt(s, next, path, rv, n_tensors + 1, sat_add(total, contributed))
            },
        }
    }
}

/// A loaded Ggjt record moves the stream position forward past its header.
proof fn lemma_ggjt_outcome_advances(s: Seq<u8>, p: int, path: Seq<char>, reg: Seq<TensorView>)
    requires
        s.len() <= usize::MAX,
        0 <= p,
        spec_ggjt_record_outcome(s, p, path, reg) is Loaded,
    ensures
        spec_ggjt_record_outcome(s, p, path, reg)->Loaded_pos >= p + 12,
        spec_ggjt_record_outcome(s, p, path, reg)->Loaded_contributed >= 0,
{
    let parse = spec_parse_record(s, p);
    let rec = parse->Parsed_rec;
    assert(rec.end >= p + 12);
    assert(rec.end <= s.len());
    assert(spec_align(rec.end) >= rec.end);
}

/// Load the weights of a Ggjt model: one contiguous, alignment-padded
/// file, whole tensors only. Same contract shape as the multi-part
/// loader; the whole effect is exactly [`spec_run_ggjt`].
pub fn load_weights_ggjt(
    part: &PartFile,
    file_offset: usize,
    reg: &mut TensorRegistry,
    events: &mut Vec<LoadProgress>,
) -> (r: Result<(), LoadError>)
    requires
        registry_wf(old(reg)@),
    ensures
        registry_wf(final(reg)@),
        final(reg)@.len() == old(reg)@.len(),
        ({
            let run = spec_run_ggjt(part.data@, file_offset as int, part.path@, old(reg)@, 0, 0);
            &&& final(reg)@ == run.reg
            &&& (r is Ok <==> run.result is None)
            &&& (run.result is Some ==> r is Err && r->Err_0@ == run.result->Some_0)
            &&& events_view(final(events)@) == events_view(old(events)@) + spec_part_events(
                part.path@,
                0,
                1,
                run.n_tensors,
                run.total_size,
                old(reg)@.len() as int,
                run.result is None,
            )
        }),
{
    let ghost run_all = spec_run_ggjt(part.data@, file_offset as int, part.path@, old(reg)@, 0, 0);
    events.push(
        LoadProgress::PartLoading { file: part.path.clone(), current_part: 0, total_parts: 1 },
    );
    let mut c = ByteCursor::new(clone_bytes(&part.data));
    c.seek(file_offset);
    let mut total_size: usize = 0;
    let mut n_tensors: usize = 0;
    proof {
        assert(events_view(events@) =~= events_view(old(events)@) + spec_part_events(
            part.path@,
            0,
            1,
            0,
            0,
            old(reg)@.len() as int,
            false,
        ));
    }
    while !(c.pos >= c.data.len())
        invariant
            registry_wf(reg@),
            c.data@ == part.data@,
            reg@.len() == old(reg)@.len(),
            total_size <= usize::MAX,
            n_tensors == 0 ==> c.pos == file_offset,
            n_tensors == 0 || 12 * (n_tensors as int) <= c.pos as int - (file_offset as int),
            run_all == spec_run_ggjt(
                part.data@,
                file_offset as int,
                part.path@,
                old(reg)@,
                0,
                0,
            ),
            spec_run_ggjt(
                part.data@,
                c.pos as int,
                part.path@,
                reg@,
                n_tensors as int,
                total_size as int,
            ) == run_all,
            events_view(events@) == events_view(old(events)@) + spec_part_events(
                part.path@,
                0,
                1,
                n_tensors as int,
                0,
                old(reg)@.len() as int,
                false,
            ),
        decreases remaining(c.data@, c.pos as int),
    {
        let ghost p_before = c.pos as int;
        let ghost reg_before = reg@;
        let ghost out = spec_ggjt_record_outcome(part.data@, p_before, part.path@, reg@);
        let contributed = match load_tensor_record_ggjt(&mut c, &part.path, reg) {
            Ok(v) => v,
            Err(e) => {
                proof {
                    assert(run_all == (PartRun {
                        result: Some(out->Fail_err),
                        reg: out->Fail_reg,
                        n_tensors: n_tensors as int,
                        total_size: total_size as int,
                        pos: out->Fail_pos,
                    }));
                    assert(events_view(events@) =~= events_view(old(events)@) + spec_part_events(
                        part.path@,
                        0,
                        1,
                        run_all.n_tensors,
                        run_all.total_size,
                        old(reg)@.len() as int,
                        false,
                    ));
                }
                return Err(e);
            },
        };
        proof {
            lemma_ggjt_outcome_advances(part.data@, p_before, part.path@, reg_before);
            assert(12 * (n_tensors as int + 1) == 12 * (n_tensors as int) + 12);
        }
        total_size = total_size.saturating_add(contributed);
        n_tensors = n_tensors + 1;
        let ghost evs_before = events@;
        events.push(
            LoadProgress::PartTensorLoaded {
                file: part.path.clone(),
                current_tensor: n_tensors,
                tensor_count: reg.len(),
            },
        );
        proof {
            assert(events_view(events@) =~= events_view(evs_before).push(events@.last()@));
            assert(events_view(events@) =~= events_view(old(events)@) + spec_part_events(
                part.path@,
                0,
                1,
                n_tensors as int,
                0,
                old(reg)@.len() as int,
                false,
            ));
        }
    }
    proof {
        assert(run_all == (PartRun {
            result: None,
            reg: reg@,
            n_tensors: n_tensors as int,
            total_size: total_size as int,
            pos: c.pos as int,
        }));
    }
    let ghost evs_before2 = events@;
    events.push(
        LoadProgress::PartLoaded {
            file: part.path.clone(),
            byte_size: total_size,
            tensor_count: n_tensors,
        },
    );
    proof {
        assert(events_view(events@) =~= events_view(evs_before2).push(events@.last()@));
        assert(events_view(events@) =~= events_view(old(events)@) + spec_part_events(
            part.path@,
            0,
            1,
            run_all.n_tensors,
            run_all.total_size,
            old(reg)@.len() as int,
            true,
        ));
    }
    Ok(())
}

} // verus!
