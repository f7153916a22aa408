//! KV cache geometry: per layer one preallocated buffer of `max_seq` rows of
//! `kv_dim` floats. Decode step `pos` writes its key and value into row `pos`;
//! attention at `pos` then reads the `pos + 1` rows of the prefix.

use vstd::prelude::*;

verus! {

/// The shape of a KV cache.
#[derive(Clone, Copy, Debug, PartialEq, Eq, Structural)]
pub struct KvLayout {
    pub n_layers: usize,
    pub kv_dim: usize,
    pub max_seq: usize,
}

impl KvLayout {
    /// Every row of a layer's buffer, counted in bytes, fits a `usize`.
    pub open spec fn wf(self) -> bool {
        self.max_seq * self.kv_dim * 4 <= usize::MAX
    }

    /// Where row `pos` starts, in floats.
    pub open spec fn spec_slot(self, pos: int) -> int {
        pos * self.kv_dim
    }

    /// The shape of `n_layers` caches of `max_seq` rows of `kv_dim`, if a
    /// layer's buffer can be addressed in bytes.
    pub fn new(n_layers: usize, kv_dim: usize, max_seq: usize) -> (r: Option<KvLayout>)
        ensures
            r matches Some(l) ==> l == (KvLayout { n_layers, kv_dim, max_seq }) && l.wf(),
            r is None <==> max_seq * kv_dim * 4 > usize::MAX,
    {
        match max_seq.checked_mul(kv_dim) {
            Some(n) => match n.checked_mul(4) {
                Some(_) => Some(KvLayout { n_layers, kv_dim, max_seq }),
                None => None,
            },
            None => {
                proof {
                    assert(max_seq * kv_dim * 4 >= max_seq * kv_dim) by (nonlinear_arith)
                        requires
                            max_seq * kv_dim >= 0,
                    ;
                }
                None
            },
        }
    }

    /// The length of one layer's buffer, in floats.
    pub fn layer_len(&self) -> (n: usize)
        requires
            self.wf(),
        ensures
            n == self.max_seq * self.kv_dim,
    {
        proof {
            assert(self.max_seq * self.kv_dim <= self.max_seq * self.kv_dim * 4) by (nonlinear_arith)
                requires
                    self.max_seq * self.kv_dim >= 0,
            ;
        }
        self.max_seq * self.kv_dim
    }

    /// Where the key (and the value) of the token at `pos` is written, in
    /// floats; `kv_dim` floats from there on.
    pub fn slot(&self, pos: usize) -> (off: usize)
        requires
            self.wf(),
            pos < self.max_seq,
        ensures
            off == self.spec_slot(pos as int),
            off + self.kv_dim <= self.max_seq * self.kv_dim,
    {
        proof {
            lemma_slot_in_layer(*self, pos as int);
            assert(self.max_seq * self.kv_dim <= self.max_seq * self.kv_dim * 4) by (nonlinear_arith)
                requires
                    self.max_seq * self.kv_dim >= 0,
            ;
        }
        pos * self.kv_dim
    }

    /// How many rows attention reads at step `pos`: the whole prefix up to
    /// and including the token just written.
    pub fn attended(&self, pos: usize) -> (n: usize)
        requires
            pos < self.max_seq,
        ensures
            n == pos + 1,
    {
        pos + 1
    }
}

/// The row of any position below `max_seq` lies inside the layer's buffer.
pub proof fn lemma_slot_in_layer(l: KvLayout, pos: int)
    requires
        0 <= pos < l.max_seq,
    ensures
        0 <= l.spec_slot(pos),
        l.spec_slot(pos) + l.kv_dim <= l.max_seq * l.kv_dim,
{
    assert(0 <= pos * l.kv_dim) by (nonlinear_arith)
        requires
            0 <= pos,
            0 <= l.kv_dim,
    ;
    assert(pos * l.kv_dim + l.kv_dim <= l.max_seq * l.kv_dim) by (nonlinear_arith)
        requires
            0 <= pos < l.max_seq,
            0 <= l.kv_dim,
    ;
}

/// The rows of two different positions never overlap: writing one token's
/// key and value leaves every other token's row as it was.
pub proof fn lemma_slots_disjoint(l: KvLayout, p: int, q: int)
    requires
        0 <= p < q,
    ensures
        l.spec_slot(p) + l.kv_dim <= l.spec_slot(q),
{
    assert(p * l.kv_dim + l.kv_dim <= q * l.kv_dim) by (nonlinear_arith)
        requires
            0 <= p < q,
            0 <= l.kv_dim,
    ;
}

/// The prefix attention reads at step `pos` holds the row of every position
/// written so far, the current one included.
pub proof fn lemma_prefix_holds_written(l: KvLayout, pos: int, p: int)
    requires
        0 <= p <= pos,
    ensures
        0 <= l.spec_slot(p),
        l.spec_slot(p) + l.kv_dim <= (pos + 1) * l.kv_dim,
{
    assert(0 <= p * l.kv_dim) by (nonlinear_arith)
        requires
            0 <= p,
            0 <= l.kv_dim,
    ;
    assert(p * l.kv_dim + l.kv_dim <= (pos + 1) * l.kv_dim) by (nonlinear_arith)
        requires
            0 <= p <= pos,
            0 <= l.kv_dim,
    ;
}

} // verus!
