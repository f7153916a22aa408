//! The op vocabulary families assemble from, and the fusion pass over it.
//!
//! A family describes a decoder layer as an ordered list of [`Block`]s, each a
//! reference to one kernel building block. Because the architecture is data,
//! [`fuse`] can collapse adjacent blocks into fused kernels: a norm merged into
//! the next Linear block, and a gated MLP (two projections plus the
//! activation) merged into one dispatch.

use vstd::prelude::*;

verus! {

/// A weight projection (matmul against a named weight).
#[derive(Clone, Copy, Debug, PartialEq, Eq, Structural)]
pub enum Proj {
    Q,
    K,
    V,
    O,
    Gate,
    Up,
    Down,
}

/// Attention masking the family applies.
#[derive(Clone, Copy, Debug, PartialEq, Eq, Structural)]
pub enum Mask {
    Causal,
    Sliding(u32),
}

/// One step in a decoder layer. Primitive variants map one to one to a kernel
/// building block; the `Fused*` variants are produced by [`fuse`] and dispatch a
/// single fused kernel in place of the sequence they replace.
#[derive(Clone, Copy, Debug, PartialEq, Eq, Structural)]
pub enum Block {
    ResidualSave,
    ResidualAdd,
    RmsNorm,
    RmsNormUnit,
    Linear(Proj),
    QkNorm,
    Rope,
    Attention(Mask),
    SwiGlu,
    GeGlu,
    /// RMSNorm folded into the input of the following projection.
    FusedNormLinear { unit: bool, proj: Proj },
    /// gate-proj + up-proj matmuls + gate activation in one kernel.
    FusedGatedMlp { geglu: bool },
}

/// `Some(unit)` when `b` is an RMSNorm block (`unit` for the `1 + weight` gain).
pub open spec fn norm_gain(b: Block) -> Option<bool> {
    match b {
        Block::RmsNorm => Some(false),
        Block::RmsNormUnit => Some(true),
        _ => None,
    }
}

/// `Some(geglu)` when `b` is a gated activation block.
pub open spec fn gate_activation(b: Block) -> Option<bool> {
    match b {
        Block::SwiGlu => Some(false),
        Block::GeGlu => Some(true),
        _ => None,
    }
}

/// `[RmsNorm{,Unit}, Linear(p)]` starts `s`.
pub open spec fn starts_norm_linear(s: Seq<Block>) -> bool {
    s.len() >= 2 && norm_gain(s[0]) is Some && s[1] is Linear
}

/// `[Linear(Gate), Linear(Up), SwiGlu|GeGlu]` starts `s`.
pub open spec fn starts_gated_mlp(s: Seq<Block>) -> bool {
    s.len() >= 3 && s[0] == Block::Linear(Proj::Gate) && s[1] == Block::Linear(Proj::Up)
        && gate_activation(s[2]) is Some
}

/// The fused form of a block list: scanning left to right, the norm rule is
/// tried first, then the gated-MLP rule; a block that starts neither is kept.
pub open spec fn spec_fuse(s: Seq<Block>) -> Seq<Block>
    decreases s.len(),
{
    if s.len() == 0 {
        Seq::empty()
    } else if starts_norm_linear(s) {
        seq![Block::FusedNormLinear { unit: norm_gain(s[0])->0, proj: s[1]->Linear_0 }] + spec_fuse(
            s.skip(2),
        )
    } else if starts_gated_mlp(s) {
        seq![Block::FusedGatedMlp { geglu: gate_activation(s[2])->0 }] + spec_fuse(s.skip(3))
    } else {
        seq![s[0]] + spec_fuse(s.skip(1))
    }
}

/// The primitive blocks a block stands for.
pub open spec fn expand_block(b: Block) -> Seq<Block> {
    match b {
        Block::FusedNormLinear { unit, proj } => seq![
            if unit {
                Block::RmsNormUnit
            } else {
                Block::RmsNorm
            },
            Block::Linear(proj),
        ],
        Block::FusedGatedMlp { geglu } => seq![
            Block::Linear(Proj::Gate),
            Block::Linear(Proj::Up),
            if geglu {
                Block::GeGlu
            } else {
                Block::SwiGlu
            },
        ],
        _ => seq![b],
    }
}

/// The sequence of primitive kernels a block list executes.
pub open spec fn expand(s: Seq<Block>) -> Seq<Block>
    decreases s.len(),
{
    if s.len() == 0 {
        Seq::empty()
    } else {
        expand_block(s[0]) + expand(s.skip(1))
    }
}

/// No fusion rule matches anywhere in `s`.
pub open spec fn fully_fused(s: Seq<Block>) -> bool {
    forall|i: int|
        0 <= i < s.len() ==> !starts_norm_linear(#[trigger] s.skip(i)) && !starts_gated_mlp(
            s.skip(i),
        )
}

impl Block {
    /// One dispatch per block (a fused block is still one dispatch).
    pub fn dispatches(self) -> (n: usize)
        ensures
            n == 1,
    {
        1
    }
}

/// The fused form of a block list (see [`spec_fuse`]).
pub fn fuse(blocks: &[Block]) -> (out: Vec<Block>)
    ensures
        out@ == spec_fuse(blocks@),
        expand(out@) == expand(blocks@),
        out@.len() <= blocks@.len(),
        fully_fused(out@),
{
    let mut out: Vec<Block> = Vec::with_capacity(blocks.len());
    let mut i: usize = 0;
    assert(blocks@.skip(0) =~= blocks@);
    while i < blocks.len()
        invariant
            i <= blocks.len(),
            out@ + spec_fuse(blocks@.skip(i as int)) =~= spec_fuse(blocks@),
        decreases blocks.len() - i,
    {
        let ghost rest = blocks@.skip(i as int);
        // [RmsNorm{,Unit}, Linear(p)] -> FusedNormLinear
        if i + 1 < blocks.len() {
            let unit = match blocks[i] {
                Block::RmsNorm => Some(false),
                Block::RmsNormUnit => Some(true),
                _ => None,
            };
            if let (Some(unit), Block::Linear(proj)) = (unit, blocks[i + 1]) {
                assert(rest.skip(2) =~= blocks@.skip(i + 2));
                assert(starts_norm_linear(rest));
                out.push(Block::FusedNormLinear { unit, proj });
                i += 2;
                continue;
            }
        }
        // [Linear(Gate), Linear(Up), SwiGlu|GeGlu] -> FusedGatedMlp
        if blocks.len() - i > 2 && blocks[i] == Block::Linear(Proj::Gate) && blocks[i + 1]
            == Block::Linear(Proj::Up) {
            let geglu = match blocks[i + 2] {
                Block::SwiGlu => Some(false),
                Block::GeGlu => Some(true),
                _ => None,
            };
            if let Some(geglu) = geglu {
                assert(rest.skip(3) =~= blocks@.skip(i + 3));
                assert(!starts_norm_linear(rest));
                assert(starts_gated_mlp(rest));
                out.push(Block::FusedGatedMlp { geglu });
                i += 3;
                continue;
            }
        }
        assert(rest.skip(1) =~= blocks@.skip(i + 1));
        assert(!starts_norm_linear(rest));
        assert(!starts_gated_mlp(rest));
        out.push(blocks[i]);
        i += 1;
    }
    proof {
        assert(blocks@.skip(blocks@.len() as int) =~= Seq::<Block>::empty());
        lemma_fuse_preserves_kernels(blocks@);
        lemma_fuse_never_grows(blocks@);
        lemma_fuse_is_fully_fused(blocks@);
    }
    out
}

/// Total dispatches for a block list (sum of per-block dispatches).
pub fn dispatch_count(blocks: &[Block]) -> (n: usize)
    ensures
        n == blocks@.len(),
{
    let mut n: usize = 0;
    let mut i: usize = 0;
    while i < blocks.len()
        invariant
            i <= blocks.len(),
            n == i,
        decreases blocks.len() - i,
    {
        n = n + blocks[i].dispatches();
        i += 1;
    }
    n
}

/// `b` is one of the fused variants.
pub open spec fn is_fused(b: Block) -> bool {
    b is FusedNormLinear || b is FusedGatedMlp
}

proof fn lemma_expand_cons(x: Block, t: Seq<Block>)
    ensures
        expand(seq![x] + t) == expand_block(x) + expand(t),
{
    let s = seq![x] + t;
    assert(s.skip(1) =~= t);
    assert(s[0] == x);
}

proof fn lemma_expand_unfold(s: Seq<Block>)
    requires
        s.len() > 0,
    ensures
        expand(s) == expand_block(s[0]) + expand(s.skip(1)),
{
}

/// Fusion is behaviour-preserving: the primitive kernels a fused block list
/// executes are exactly those of the list it was fused from.
pub proof fn lemma_fuse_preserves_kernels(s: Seq<Block>)
    ensures
        expand(spec_fuse(s)) == expand(s),
    decreases s.len(),
{
    if s.len() == 0 {
    } else if starts_norm_linear(s) {
        lemma_fuse_preserves_kernels(s.skip(2));
        let f = Block::FusedNormLinear { unit: norm_gain(s[0])->0, proj: s[1]->Linear_0 };
        lemma_expand_cons(f, spec_fuse(s.skip(2)));
        lemma_expand_unfold(s);
        lemma_expand_unfold(s.skip(1));
        assert(s.skip(1).skip(1) =~= s.skip(2));
        assert(expand_block(f) =~= expand_block(s[0]) + expand_block(s[1]));
        assert(expand(s) =~= expand_block(f) + expand(s.skip(2)));
    } else if starts_gated_mlp(s) {
        lemma_fuse_preserves_kernels(s.skip(3));
        let f = Block::FusedGatedMlp { geglu: gate_activation(s[2])->0 };
        lemma_expand_cons(f, spec_fuse(s.skip(3)));
        lemma_expand_unfold(s);
        lemma_expand_unfold(s.skip(1));
        lemma_expand_unfold(s.skip(2));
        assert(s.skip(1).skip(1) =~= s.skip(2));
        assert(s.skip(2).skip(1) =~= s.skip(3));
        assert(expand_block(f) =~= expand_block(s[0]) + expand_block(s[1]) + expand_block(s[2]));
        assert(expand(s) =~= expand_block(f) + expand(s.skip(3)));
    } else {
        lemma_fuse_preserves_kernels(s.skip(1));
        lemma_expand_cons(s[0], spec_fuse(s.skip(1)));
    }
}

/// Fusion never adds dispatches: the fused list is no longer than its input.
pub proof fn lemma_fuse_never_grows(s: Seq<Block>)
    ensures
        spec_fuse(s).len() <= s.len(),
    decreases s.len(),
{
    if s.len() == 0 {
    } else if starts_norm_linear(s) {
        lemma_fuse_never_grows(s.skip(2));
    } else if starts_gated_mlp(s) {
        lemma_fuse_never_grows(s.skip(3));
    } else {
        lemma_fuse_never_grows(s.skip(1));
    }
}

proof fn lemma_fuse_head(r: Seq<Block>)
    requires
        r.len() > 0,
    ensures
        spec_fuse(r).len() > 0,
        !is_fused(spec_fuse(r)[0]) ==> {
            &&& !starts_norm_linear(r)
            &&& !starts_gated_mlp(r)
            &&& spec_fuse(r) == seq![r[0]] + spec_fuse(r.skip(1))
        },
{
}

proof fn lemma_fully_fused_fixed(t: Seq<Block>)
    requires
        fully_fused(t),
    ensures
        spec_fuse(t) == t,
    decreases t.len(),
{
    if t.len() > 0 {
        assert(t.skip(0) =~= t);
        assert forall|i: int| 0 <= i < t.skip(1).len() implies !starts_norm_linear(
            #[trigger] t.skip(1).skip(i),
        ) && !starts_gated_mlp(t.skip(1).skip(i)) by {
            assert(t.skip(1).skip(i) =~= t.skip(i + 1));
        }
        lemma_fully_fused_fixed(t.skip(1));
        assert(seq![t[0]] + t.skip(1) =~= t);
    }
}

proof fn lemma_fuse_is_fully_fused(s: Seq<Block>)
    ensures
        fully_fused(spec_fuse(s)),
    decreases s.len(),
{
    if s.len() == 0 {
    } else {
        let (h, rest) = if starts_norm_linear(s) {
            (Block::FusedNormLinear { unit: norm_gain(s[0])->0, proj: s[1]->Linear_0 }, s.skip(2))
        } else if starts_gated_mlp(s) {
            (Block::FusedGatedMlp { geglu: gate_activation(s[2])->0 }, s.skip(3))
        } else {
            (s[0], s.skip(1))
        };
        lemma_fuse_is_fully_fused(rest);
        let f = spec_fuse(rest);
        let out = spec_fuse(s);
        assert(out == seq![h] + f);
        assert forall|i: int| 0 <= i < out.len() implies !starts_norm_linear(
            #[trigger] out.skip(i),
        ) && !starts_gated_mlp(out.skip(i)) by {
            if i > 0 {
                assert(out.skip(i) =~= f.skip(i - 1));
            } else {
                assert(out.skip(0) =~= out);
                if !is_fused(h) && f.len() > 0 {
                    assert(rest == s.skip(1));
                    assert(!starts_norm_linear(s) && !starts_gated_mlp(s));
                    lemma_fuse_head(rest);
                    if !is_fused(f[0]) {
                        assert(rest[0] == s[1]);
                        if f.skip(1).len() > 0 {
                            assert(f.skip(1) =~= spec_fuse(rest.skip(1)));
                            lemma_fuse_head(rest.skip(1));
                            assert(rest.skip(1)[0] == s[2]);
                        }
                    }
                }
            }
        }
    }
}

/// Fusion is idempotent: a fused list has no window left for either rule, so
/// fusing it again changes nothing.
pub proof fn lemma_fuse_idempotent(s: Seq<Block>)
    ensures
        fully_fused(spec_fuse(s)),
        spec_fuse(spec_fuse(s)) == spec_fuse(s),
{
    lemma_fuse_is_fully_fused(s);
    lemma_fully_fused_fixed(spec_fuse(s));
}

} // verus!
