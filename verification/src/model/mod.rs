//! What a model decides on the host: which tensors it asks its weight source
//! for, under which names and at which shapes (`qwen3`), and where each
//! token's keys and values live in the preallocated KV cache (`cache`).
//! Running the forward pass on the GPU is the application's part.

use vstd::prelude::*;
use vstd::string::*;

use crate::text::{decimal, push_decimal};

pub mod cache;
pub mod qwen3;

verus! {

/// `"{name}.{part}"`.
pub open spec fn spec_child(name: Seq<char>, part: Seq<char>) -> Seq<char> {
    name + "."@ + part
}

/// `"blk.{i}"`, the name prefix of decoder layer `i`.
pub open spec fn spec_block_prefix(i: nat) -> Seq<char> {
    "blk."@ + decimal(i)
}

/// `"{name}.{part}"`: a tensor name one level below `name`.
pub fn child_name(name: &str, part: &str) -> (r: String)
    ensures
        r@ == spec_child(name@, part@),
{
    let mut s = String::from_str(name);
    s.append(".");
    s.append(part);
    s
}

/// `"{name}.weight"`.
pub fn weight_name(name: &str) -> (r: String)
    ensures
        r@ == spec_child(name@, "weight"@),
{
    child_name(name, "weight")
}

/// `"{name}.bias"`.
pub fn bias_name(name: &str) -> (r: String)
    ensures
        r@ == spec_child(name@, "bias"@),
{
    child_name(name, "bias")
}

/// `"blk.{i}"`.
pub fn block_prefix(i: usize) -> (r: String)
    ensures
        r@ == spec_block_prefix(i as nat),
{
    let mut s = String::from_str("blk.");
    push_decimal(&mut s, i);
    s
}

/// How many rows of a linear layer's output get its bias added: every row,
/// when the layer has a bias tensor; none otherwise.
pub fn bias_rows(has_bias: bool, rows: usize) -> (n: usize)
    ensures
        n == if has_bias {
            rows
        } else {
            0
        },
{
    if has_bias {
        rows
    } else {
        0
    }
}

/// Where each of `rows` rows of width `width` starts in a row-major buffer
/// (where a bias vector is laid down to be added to every row).
pub fn row_offsets(rows: usize, width: usize) -> (v: Vec<usize>)
    requires
        rows * width <= usize::MAX,
    ensures
        v@.len() == rows,
        forall|r: int| 0 <= r < rows ==> #[trigger] v@[r] == r * width,
{
    let mut v: Vec<usize> = Vec::new();
    let mut r: usize = 0;
    while r < rows
        invariant
            r <= rows,
            rows * width <= usize::MAX,
            v@.len() == r,
            forall|q: int| 0 <= q < r ==> #[trigger] v@[q] == q * width,
        decreases rows - r,
    {
        proof {
            assert(r * width <= rows * width) by (nonlinear_arith)
                requires
                    r < rows,
            ;
        }
        v.push(r * width);
        r += 1;
    }
    v
}

} // verus!
