//! The split policy: which axis of a two-dimensional tensor is partitioned
//! across the parts of a multi-part model.
//!
//! The choice is a pure function of the tensor's name: embedding and
//! certain attention and feed-forward weight names split by columns, the
//! output and the remaining attention and feed-forward weights by rows,
//! and anything else by columns. Single-part and one-dimensional tensors
//! are never split.

use vstd::prelude::*;

verus! {

/// Which axis of a two-dimensional tensor the parts partition.
#[derive(Debug, Copy, Clone, PartialEq, Eq, Structural)]
pub enum SplitAxis {
    /// Each part holds a contiguous slice of every row.
    Columns,
    /// Each part holds a contiguous run of whole rows.
    Rows,
}

/// Whether `n` occurs as a contiguous run inside `h`.
pub open spec fn contains_bytes(h: Seq<u8>, n: Seq<u8>) -> bool {
    exists|i: int| 0 <= i && i + n.len() <= h.len() && #[trigger] h.subrange(i, i + n.len()) == n
}

/// Whether `h` carries `n` starting at `i`.
pub(crate) fn matches_at(h: &[u8], n: &[u8], i: usize) -> (r: bool)
    requires
        i + n@.len() <= h@.len(),
    ensures
        r == (h@.subrange(i as int, i + n@.len()) == n@),
{
    let hl = h.len();
    let nl = n.len();
    let mut j: usize = 0;
    while j < nl
        invariant
            j <= nl,
            i + nl <= hl,
            hl == h@.len(),
            nl == n@.len(),
            forall|k: int| 0 <= k < j ==> h@[i + k] == n@[k],
        decreases nl - j,
    {
        if h[i + j] != n[j] {
            proof {
                assert(h@.subrange(i as int, i + n@.len())[j as int] != n@[j as int]);
            }
            return false;
        }
        j = j + 1;
    }
    proof {
        assert(h@.subrange(i as int, i + n@.len()) =~= n@);
    }
    true
}

/// Whether the byte string `n` occurs anywhere inside `h`.
pub fn contains_sub(h: &[u8], n: &[u8]) -> (r: bool)
    ensures
        r == contains_bytes(h@, n@),
{
    let hl = h.len();
    let nl = n.len();
    if nl == 0 {
        proof {
            assert(h@.subrange(0, 0 + n@.len() as int) =~= n@);
            assert(0 <= 0 && 0 + n@.len() <= h@.len() && h@.subrange(0, 0 + n@.len() as int) == n@);
            assert(contains_bytes(h@, n@));
        }
        return true;
    }
    if nl > hl {
        proof {
            assert(!contains_bytes(h@, n@));
        }
        return false;
    }
    let mut i: usize = 0;
    while i <= hl - nl
        invariant
            1 <= nl <= hl,
            hl == h@.len(),
            nl == n@.len(),
            i <= hl - nl + 1,
            forall|j: int| 0 <= j < i ==> #[trigger] h@.subrange(j, j + n@.len()) != n@,
        decreases hl - i,
    {
        if matches_at(h, n, i) {
            proof {
                assert(contains_bytes(h@, n@));
            }
            return true;
        }
        i = i + 1;
    }
    proof {
        assert forall|j: int| 0 <= j && j + n@.len() <= h@.len() implies #[trigger] h@.subrange(
            j,
            j + n@.len(),
        ) != n@ by {
            assert(j < i);
        }
    }
    false
}

/// The bytes of the name fragment that marks token-embedding weights.
pub open spec fn pat_tok_embeddings() -> Seq<u8> {
    seq![116u8, 111u8, 107u8, 95u8, 101u8, 109u8, 98u8, 101u8, 100u8, 100u8, 105u8, 110u8, 103u8, 115u8]
}

/// The bytes of the name fragment that marks per-layer weights.
pub open spec fn pat_layers() -> Seq<u8> {
    seq![108u8, 97u8, 121u8, 101u8, 114u8, 115u8]
}

/// The bytes of the name fragment that marks attention output weights.
pub open spec fn pat_attention_wo_weight() -> Seq<u8> {
    seq![97u8, 116u8, 116u8, 101u8, 110u8, 116u8, 105u8, 111u8, 110u8, 46u8, 119u8, 111u8, 46u8, 119u8, 101u8, 105u8, 103u8, 104u8, 116u8]
}

/// The bytes of the name fragment that marks the second feed-forward
/// weights.
pub open spec fn pat_feed_forward_w2_weight() -> Seq<u8> {
    seq![102u8, 101u8, 101u8, 100u8, 95u8, 102u8, 111u8, 114u8, 119u8, 97u8, 114u8, 100u8, 46u8, 119u8, 50u8, 46u8, 119u8, 101u8, 105u8, 103u8, 104u8, 116u8]
}

/// The bytes of the name fragment that marks the output weights.
pub open spec fn pat_output() -> Seq<u8> {
    seq![111u8, 117u8, 116u8, 112u8, 117u8, 116u8]
}

/// The split axis the name `name` selects: an ordered list of
/// (fragment, axis) rules, first match wins, columns as the last resort.
pub open spec fn spec_split_axis(name: Seq<u8>) -> SplitAxis {
    if contains_bytes(name, pat_tok_embeddings()) {
        SplitAxis::Columns
    } else if contains_bytes(name, pat_layers()) {
        if contains_bytes(name, pat_attention_wo_weight()) || contains_bytes(
            name,
            pat_feed_forward_w2_weight(),
        ) {
            SplitAxis::Columns
        } else {
            SplitAxis::Rows
        }
    } else if contains_bytes(name, pat_output()) {
        SplitAxis::Rows
    } else {
        SplitAxis::Columns
    }
}

/// Derive the split axis from a tensor's name.
pub fn split_axis(name: &[u8]) -> (r: SplitAxis)
    ensures
        r == spec_split_axis(name@),
{
    // "tok_embeddings"
    let tok: [u8; 14] = [116, 111, 107, 95, 101, 109, 98, 101, 100, 100, 105, 110, 103, 115];
    // "layers"
    let layers: [u8; 6] = [108, 97, 121, 101, 114, 115];
    // "attention.wo.weight"
    let wo: [u8; 19] = [
        97,
        116,
        116,
        101,
        110,
        116,
        105,
        111,
        110,
        46,
        119,
        111,
        46,
        119,
        101,
        105,
        103,
        104,
        116,
    ];
    // "feed_forward.w2.weight"
    let w2: [u8; 22] = [
        102,
        101,
        101,
        100,
        95,
        102,
        111,
        114,
        119,
        97,
        114,
        100,
        46,
        119,
        50,
        46,
        119,
        101,
        105,
        103,
        104,
        116,
    ];
    // "output"
    let output: [u8; 6] = [111, 117, 116, 112, 117, 116];
    proof {
        assert(tok@ =~= pat_tok_embeddings());
        assert(layers@ =~= pat_layers());
        assert(wo@ =~= pat_attention_wo_weight());
        assert(w2@ =~= pat_feed_forward_w2_weight());
        assert(output@ =~= pat_output());
    }
    if contains_sub(name, tok.as_slice()) {
        SplitAxis::Columns
    } else if contains_sub(name, layers.as_slice()) {
        if contains_sub(name, wo.as_slice()) || contains_sub(name, w2.as_slice()) {
            SplitAxis::Columns
        } else {
            SplitAxis::Rows
        }
    } else if contains_sub(name, output.as_slice()) {
        SplitAxis::Rows
    } else {
        SplitAxis::Columns
    }
}

} // verus!
