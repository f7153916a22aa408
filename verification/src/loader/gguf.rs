//! GGUF loader: a hand-written parser over the binary container. Metadata keys
//! and tensor names are GGUF's (llama.cpp) convention.
//!
//! Layout: magic `GGUF`, `u32` version, `u64` tensor count, `u64` metadata
//! count; then the metadata entries (string key, `u32` type, value), then the
//! tensor infos (string name, `u32` rank, `u64` dims, `u32` ggml dtype, `u64`
//! offset); tensor data starts at the next `general.alignment` boundary
//! (default 32). Strings are a `u64` byte length then the bytes. All integers
//! are little-endian.

use vstd::prelude::*;
use vstd::slice::slice_subrange;
use vstd::string::*;

use super::dequant;
use super::{le16, le32, le64, TensorError};
use crate::floatbits::{f32_bits_to_u32, f32_to_u32_sat, f64_bits_to_u32, f64_to_u32_sat};
use crate::text::{lossy_chars, str_eq, string_from_utf8_lossy};

verus! {

/// A parsed metadata value. Integers of every width are widened to `u64`
/// (signed ones sign-extended); floats keep their IEEE bit pattern.
#[derive(Debug)]
pub enum Meta {
    U(u64),
    F32(u32),
    F64(u64),
    Str(String),
    Other,
}

/// The value of a [`Meta`], with the string as its characters.
pub enum MetaV {
    U(u64),
    F32(u32),
    F64(u64),
    Str(Seq<char>),
    Other,
}

impl View for Meta {
    type V = MetaV;

    open spec fn view(&self) -> MetaV {
        match self {
            Meta::U(v) => MetaV::U(*v),
            Meta::F32(v) => MetaV::F32(*v),
            Meta::F64(v) => MetaV::F64(*v),
            Meta::Str(s) => MetaV::Str(s@),
            Meta::Other => MetaV::Other,
        }
    }
}

/// Where a tensor's data lives in the data section.
#[derive(Clone, Copy, Debug, PartialEq, Eq, Structural)]
pub struct TensorInfo {
    pub dtype: u32,
    pub n_elems: usize,
    /// Byte offset into the data section.
    pub offset: usize,
}

/// What a GGUF file holds: metadata and tensor infos in file order (a later
/// entry with the same key shadows an earlier one), and the data section.
pub struct GgufView {
    pub meta: Seq<(Seq<char>, MetaV)>,
    pub tensors: Seq<(Seq<char>, TensorInfo)>,
    pub data: Seq<u8>,
}

pub struct GgufWeights {
    meta_keys: Vec<String>,
    meta_vals: Vec<Meta>,
    tensor_names: Vec<String>,
    tensor_infos: Vec<TensorInfo>,
    /// The tensor-data section.
    data: Vec<u8>,
}

// ---------------------------------------------------------------------------
// The format, as spec functions. `None` is an input the reader runs off.

/// Index of the last entry named `key` among the first `n` entries.
pub open spec fn find_last_in<V>(es: Seq<(Seq<char>, V)>, key: Seq<char>, n: int) -> Option<int>
    decreases n,
{
    if n <= 0 {
        None
    } else if es[n - 1].0 == key {
        Some(n - 1)
    } else {
        find_last_in(es, key, n - 1)
    }
}

/// Index of the last entry named `key`.
pub open spec fn find_last<V>(es: Seq<(Seq<char>, V)>, key: Seq<char>) -> Option<int> {
    find_last_in(es, key, es.len() as int)
}

/// The value of the last entry named `key` (what a map filled in file order
/// holds for it).
pub open spec fn lookup<V>(es: Seq<(Seq<char>, V)>, key: Seq<char>) -> Option<V> {
    match find_last(es, key) {
        Some(i) => Some(es[i].1),
        None => None,
    }
}

/// A string at `p`: `u64` length `l`, then `l` bytes decoded lossily (valid
/// UTF-8 reads back as the text it encodes).
pub open spec fn spec_str(b: Seq<u8>, p: int) -> Option<(Seq<char>, int)> {
    if p + 8 <= b.len() && p + 8 + ((le64(b, p) as usize) as int) <= b.len() {
        let l = (le64(b, p) as usize) as int;
        Some((lossy_chars(b.subrange(p + 8, p + 8 + l)), p + 8 + l))
    } else {
        None
    }
}

/// A string written as its UTF-8 length and bytes reads back as itself, and
/// reading ends right after its bytes.
pub proof fn lemma_str_reads_back(b: Seq<u8>, p: int, s: Seq<char>)
    requires
        0 <= p,
        vstd::utf8::encode_utf8(s).len() <= usize::MAX,
        p + 8 + vstd::utf8::encode_utf8(s).len() <= b.len(),
        le64(b, p) == vstd::utf8::encode_utf8(s).len(),
        b.subrange(p + 8, p + 8 + vstd::utf8::encode_utf8(s).len()) == vstd::utf8::encode_utf8(s),
    ensures
        spec_str(b, p) == Some((s, p + 8 + vstd::utf8::encode_utf8(s).len())),
{
    let e = vstd::utf8::encode_utf8(s);
    assert((le64(b, p) as usize) as int == e.len());
    vstd::utf8::encode_utf8_valid_utf8(s);
    vstd::utf8::encode_utf8_decode_utf8(s);
}

/// `x` sign-extended from `bits` to 64 bits, as a `u64`.
pub open spec fn sext(x: int, bits: nat) -> u64 {
    if x < vstd::arithmetic::power2::pow2((bits - 1) as nat) {
        x as u64
    } else {
        (x + 0x1_0000_0000_0000_0000 - vstd::arithmetic::power2::pow2(bits)) as u64
    }
}

/// Where a scalar of type `t` at `p` ends (unknown types occupy nothing).
pub open spec fn spec_scalar_end(b: Seq<u8>, p: int, t: u32) -> Option<int> {
    let w = if t == 0 || t == 1 || t == 7 {
        1int
    } else if t == 2 || t == 3 {
        2
    } else if t == 4 || t == 5 || t == 6 {
        4
    } else if t == 10 || t == 11 || t == 12 {
        8
    } else {
        0
    };
    if t == 8 {
        match spec_str(b, p) {
            Some((_, q)) => Some(q),
            None => None,
        }
    } else if p + w <= b.len() {
        Some(p + w)
    } else {
        None
    }
}

/// The byte width of every GGUF scalar type: `u8`, `i8` and `bool` (types 0,
/// 1, 7) take 1 byte, `u16`/`i16` (2, 3) take 2, `u32`/`i32`/`f32` (4, 5, 6)
/// take 4, and `u64`/`i64`/`f64` (10, 11, 12) take 8; a scalar that does not fit
/// in the input is not read.
pub proof fn lemma_scalar_widths(b: Seq<u8>, p: int, t: u32)
    ensures
        (t == 0 || t == 1 || t == 7) ==> spec_scalar_end(b, p, t) == if p + 1 <= b.len() {
            Some(p + 1)
        } else {
            None
        },
        (t == 2 || t == 3) ==> spec_scalar_end(b, p, t) == if p + 2 <= b.len() {
            Some(p + 2)
        } else {
            None
        },
        (t == 4 || t == 5 || t == 6) ==> spec_scalar_end(b, p, t) == if p + 4 <= b.len() {
            Some(p + 4)
        } else {
            None
        },
        (t == 10 || t == 11 || t == 12) ==> spec_scalar_end(b, p, t) == if p + 8 <= b.len() {
            Some(p + 8)
        } else {
            None
        },
{
}

/// Where `count` scalars of type `t` starting at `p` end.
pub open spec fn spec_array_end(b: Seq<u8>, p: int, t: u32, count: nat) -> Option<int>
    decreases count,
{
    if count == 0 {
        Some(p)
    } else {
        match spec_array_end(b, p, t, (count - 1) as nat) {
            Some(q) => spec_scalar_end(b, q, t),
            None => None,
        }
    }
}

/// A typed metadata value at `p`: `u32` type tag, then the value.
pub open spec fn spec_meta_value(b: Seq<u8>, p: int) -> Option<(MetaV, int)> {
    if p + 4 > b.len() {
        None
    } else {
        let t = le32(b, p);
        let q = p + 4;
        if t == 8 {
            match spec_str(b, q) {
                Some((s, r)) => Some((MetaV::Str(s), r)),
                None => None,
            }
        } else if t == 9 {
            if q + 12 > b.len() {
                None
            } else {
                match spec_array_end(b, q + 12, le32(b, q), (le64(b, q + 4) as usize) as nat) {
                    Some(r) => Some((MetaV::Other, r)),
                    None => None,
                }
            }
        } else if t > 12 {
            Some((MetaV::Other, q))
        } else {
            match spec_scalar_end(b, q, t) {
                None => None,
                Some(r) => Some(
                    (
                        if t == 0 || t == 7 {
                            MetaV::U(b[q] as u64)
                        } else if t == 1 {
                            MetaV::U(sext(b[q] as int, 8))
                        } else if t == 2 {
                            MetaV::U(le16(b, q) as u64)
                        } else if t == 3 {
                            MetaV::U(sext(le16(b, q) as int, 16))
                        } else if t == 4 {
                            MetaV::U(le32(b, q) as u64)
                        } else if t == 5 {
                            MetaV::U(sext(le32(b, q) as int, 32))
                        } else if t == 6 {
                            MetaV::F32(le32(b, q))
                        } else if t == 12 {
                            MetaV::F64(le64(b, q))
                        } else {
                            MetaV::U(le64(b, q))
                        },
                        r,
                    ),
                ),
            }
        }
    }
}

/// What a scalar metadata entry reads as: a `u32` type tag at `p`, then the
/// value. Each scalar type is read at its own width and ends right after it
/// (a `bool` or `u8` at `p + 5`, a `u16` at `p + 6`, a 32-bit value at
/// `p + 8`, a 64-bit value at `p + 12`); integers are widened to `u64`, signed
/// ones sign-extended, and floats keep their bits.
pub proof fn lemma_meta_scalars(b: Seq<u8>, p: int)
    requires
        0 <= p,
        p + 4 <= b.len(),
    ensures
        (le32(b, p) == 0 || le32(b, p) == 7) && p + 5 <= b.len() ==> spec_meta_value(b, p) == Some(
            (MetaV::U(b[p + 4] as u64), p + 5),
        ),
        le32(b, p) == 1 && p + 5 <= b.len() ==> spec_meta_value(b, p) == Some(
            (MetaV::U(sext(b[p + 4] as int, 8)), p + 5),
        ),
        le32(b, p) == 2 && p + 6 <= b.len() ==> spec_meta_value(b, p) == Some(
            (MetaV::U(le16(b, p + 4) as u64), p + 6),
        ),
        le32(b, p) == 3 && p + 6 <= b.len() ==> spec_meta_value(b, p) == Some(
            (MetaV::U(sext(le16(b, p + 4) as int, 16)), p + 6),
        ),
        le32(b, p) == 4 && p + 8 <= b.len() ==> spec_meta_value(b, p) == Some(
            (MetaV::U(le32(b, p + 4) as u64), p + 8),
        ),
        le32(b, p) == 5 && p + 8 <= b.len() ==> spec_meta_value(b, p) == Some(
            (MetaV::U(sext(le32(b, p + 4) as int, 32)), p + 8),
        ),
        le32(b, p) == 6 && p + 8 <= b.len() ==> spec_meta_value(b, p) == Some(
            (MetaV::F32(le32(b, p + 4)), p + 8),
        ),
        (le32(b, p) == 10 || le32(b, p) == 11) && p + 12 <= b.len() ==> spec_meta_value(b, p)
            == Some((MetaV::U(le64(b, p + 4)), p + 12)),
        le32(b, p) == 12 && p + 12 <= b.len() ==> spec_meta_value(b, p) == Some(
            (MetaV::F64(le64(b, p + 4)), p + 12),
        ),
        (le32(b, p) == 0 || le32(b, p) == 1 || le32(b, p) == 7) && p + 5 > b.len()
            ==> spec_meta_value(b, p) is None,
{
}

/// `count` metadata entries starting at `p`.
pub open spec fn spec_meta_list(b: Seq<u8>, p: int, count: nat) -> Option<
    (Seq<(Seq<char>, MetaV)>, int),
>
    decreases count,
{
    if count == 0 {
        Some((Seq::empty(), p))
    } else {
        match spec_meta_list(b, p, (count - 1) as nat) {
            None => None,
            Some((es, p1)) => match spec_str(b, p1) {
                None => None,
                Some((k, p2)) => match spec_meta_value(b, p2) {
                    None => None,
                    Some((v, p3)) => Some((es.push((k, v)), p3)),
                },
            },
        }
    }
}

/// Product of the dimensions, multiplied left to right.
pub open spec fn dims_product(d: Seq<u64>) -> int
    decreases d.len(),
{
    if d.len() == 0 {
        1
    } else {
        dims_product(d.drop_last()) * d.last()
    }
}

/// No partial product of the dimensions overflows `u64`.
pub open spec fn dims_product_fits(d: Seq<u64>) -> bool
    decreases d.len(),
{
    if d.len() == 0 {
        true
    } else {
        dims_product_fits(d.drop_last()) && dims_product(d) <= u64::MAX
    }
}

/// `n` little-endian `u64`s at `p`.
pub open spec fn spec_dims(b: Seq<u8>, p: int, n: nat) -> Seq<u64> {
    Seq::new(n, |i: int| le64(b, p + 8 * i))
}

/// A tensor info at `p`: name, `u32` rank, the dims, `u32` dtype, `u64`
/// offset. Its element count is the product of the dims (which must not
/// overflow `u64`).
pub open spec fn spec_tensor(b: Seq<u8>, p: int) -> Option<((Seq<char>, TensorInfo), int)> {
    match spec_str(b, p) {
        None => None,
        Some((name, p1)) => if p1 + 4 > b.len() {
            None
        } else {
            let nd = (le32(b, p1) as usize) as nat;
            let p2 = p1 + 4;
            if p2 + 8 * nd + 12 > b.len() {
                None
            } else {
                let dims = spec_dims(b, p2, nd);
                let p3 = p2 + 8 * nd;
                if !dims_product_fits(dims) {
                    None
                } else {
                    Some(
                        (
                            (
                                name,
                                TensorInfo {
                                    dtype: le32(b, p3),
                                    n_elems: (dims_product(dims) as u64) as usize,
                                    offset: le64(b, p3 + 4) as usize,
                                },
                            ),
                            p3 + 12,
                        ),
                    )
                }
            }
        },
    }
}

/// `count` tensor infos starting at `p`.
pub open spec fn spec_tensor_list(b: Seq<u8>, p: int, count: nat) -> Option<
    (Seq<(Seq<char>, TensorInfo)>, int),
>
    decreases count,
{
    if count == 0 {
        Some((Seq::empty(), p))
    } else {
        match spec_tensor_list(b, p, (count - 1) as nat) {
            None => None,
            Some((ts, p1)) => match spec_tensor(b, p1) {
                None => None,
                Some((t, p2)) => Some((ts.push(t), p2)),
            },
        }
    }
}

/// `ceil(a/m)·m`.
pub open spec fn round_up(a: int, m: int) -> int {
    if a % m == 0 {
        a
    } else {
        (a / m + 1) * m
    }
}

/// The tensor-data alignment a metadata list asks for: `general.alignment`
/// when it is an integer, else 32.
pub open spec fn spec_alignment(meta: Seq<(Seq<char>, MetaV)>) -> int {
    match lookup(meta, "general.alignment"@) {
        Some(MetaV::U(a)) => (a as usize) as int,
        _ => 32,
    }
}

/// Where the tensor data starts for a header that ends at `p` in a file of
/// `len` bytes: the next alignment boundary (`None` for a zero alignment or a
/// boundary past the end or beyond `usize`).
pub open spec fn spec_data_start(meta: Seq<(Seq<char>, MetaV)>, p: int, len: int) -> Option<int> {
    let a = spec_alignment(meta);
    if a == 0 {
        None
    } else {
        let ds = round_up(p, a);
        if ds > usize::MAX || ds > len {
            None
        } else {
            Some(ds)
        }
    }
}

/// What decoding tensor `t` out of the data section `data` gives: its dtype
/// picks the decoder (0 F32, 1 F16, 2 Q4_0, 3 Q4_1, 8 Q8_0, 14 Q6_K), and bytes
/// running past the end of the section are an error.
pub open spec fn tensor_decodes(t: TensorInfo, data: Seq<u8>, r: Result<Vec<u32>, TensorError>) -> bool {
    let n = t.n_elems as int;
    if t.offset > data.len() {
        r == Err::<Vec<u32>, TensorError>(TensorError::Truncated)
    } else {
        let rest = data.skip(t.offset as int);
        if t.dtype == 0 {
            if 4 * n <= rest.len() {
                r matches Ok(v) && dequant::f32_decoded(rest, n, v@)
            } else {
                r == Err::<Vec<u32>, TensorError>(TensorError::Truncated)
            }
        } else if t.dtype == 1 {
            if 2 * n <= rest.len() {
                r matches Ok(v) && dequant::f16_decoded(rest, n, v@)
            } else {
                r == Err::<Vec<u32>, TensorError>(TensorError::Truncated)
            }
        } else if t.dtype == 2 {
            if (n / 32) * 18 <= rest.len() {
                r matches Ok(v) && dequant::q4_0_decoded(rest, n, v@)
            } else {
                r == Err::<Vec<u32>, TensorError>(TensorError::Truncated)
            }
        } else if t.dtype == 8 {
            if (n / 32) * 34 <= rest.len() {
                r matches Ok(v) && dequant::q8_0_decoded(rest, n, v@)
            } else {
                r == Err::<Vec<u32>, TensorError>(TensorError::Truncated)
            }
        } else if t.dtype == 3 {
            if (n / 32) * 20 <= rest.len() {
                r matches Ok(v) && dequant::q4_1_decoded(rest, n, v@)
            } else {
                r == Err::<Vec<u32>, TensorError>(TensorError::Truncated)
            }
        } else if t.dtype == 14 {
            if (n / 256) * 210 <= rest.len() {
                r matches Ok(v) && dequant::q6_k_decoded(rest, n, v@)
            } else {
                r == Err::<Vec<u32>, TensorError>(TensorError::Truncated)
            }
        } else {
            r == Err::<Vec<u32>, TensorError>(TensorError::UnsupportedDtype(t.dtype))
        }
    }
}

/// The `u32` a metadata value reads as: integers truncated, floats cast as
/// Rust's `as u32` does, anything else 0.
pub open spec fn meta_as_u32(m: Option<MetaV>) -> u32 {
    match m {
        Some(MetaV::U(v)) => v as u32,
        Some(MetaV::F32(b)) => f32_to_u32_sat(b),
        Some(MetaV::F64(b)) => f64_to_u32_sat(b),
        _ => 0,
    }
}

/// The bytes `G G U F`.
pub open spec fn gguf_magic() -> Seq<u8> {
    seq![0x47u8, 0x47u8, 0x55u8, 0x46u8]
}

/// What a GGUF file holds: `None` when the reader would run off the input
/// (or the data start is not representable), `Some(Err(()))` when the magic
/// is wrong, else the parsed contents.
pub open spec fn spec_gguf(b: Seq<u8>) -> Option<Result<GgufView, ()>> {
    if b.len() < 4 {
        None
    } else if b.subrange(0, 4) != gguf_magic() {
        Some(Err(()))
    } else if b.len() < 24 {
        None
    } else {
        let n_tensors = (le64(b, 8) as usize) as nat;
        let n_meta = (le64(b, 16) as usize) as nat;
        match spec_meta_list(b, 24, n_meta) {
            None => None,
            Some((meta, p1)) => match spec_tensor_list(b, p1, n_tensors) {
                None => None,
                Some((tensors, p2)) => match spec_data_start(meta, p2, b.len() as int) {
                    None => None,
                    Some(ds) => Some(Ok(GgufView { meta, tensors, data: b.skip(ds) })),
                },
            },
        }
    }
}


// ---------------------------------------------------------------------------
// The reader.

/// A read position in a byte buffer.
pub struct Cur<'a> {
    pub b: &'a [u8],
    pub p: usize,
}

impl<'a> Cur<'a> {
    /// Read a little-endian `u32`.
    pub fn u32(&mut self) -> (v: u32)
        requires
            old(self).p + 4 <= old(self).b@.len(),
        ensures
            v == le32(old(self).b@, old(self).p as int),
            final(self).b == old(self).b,
            final(self).p == old(self).p + 4,
    {
        let p = self.p;
        let b = self.b;
        let v = b[p] as u32 + (b[p + 1] as u32) * 0x100 + (b[p + 2] as u32) * 0x1_0000 + (b[p
            + 3] as u32) * 0x100_0000;
        self.p = p + 4;
        v
    }

    /// Read a little-endian `u64`.
    pub fn u64(&mut self) -> (v: u64)
        requires
            old(self).p + 8 <= old(self).b@.len(),
        ensures
            v == le64(old(self).b@, old(self).p as int),
            final(self).b == old(self).b,
            final(self).p == old(self).p + 8,
    {
        let lo = self.u32();
        let hi = self.u32();
        lo as u64 + (hi as u64) * 0x1_0000_0000
    }

    /// Read a length-prefixed string, decoding its bytes lossily.
    pub fn str(&mut self) -> (s: String)
        requires
            spec_str(old(self).b@, old(self).p as int) is Some,
        ensures
            spec_str(old(self).b@, old(self).p as int) == Some((s@, final(self).p as int)),
            final(self).b == old(self).b,
    {
        let _n = self.b.len();
        let len = self.u64() as usize;
        let p = self.p;
        let s = string_from_utf8_lossy(slice_subrange(self.b, p, p + len));
        self.p = p + len;
        s
    }

    /// Take the next `n` bytes.
    pub fn bytes(&mut self, n: usize) -> (s: &'a [u8])
        requires
            old(self).p + n <= old(self).b@.len(),
        ensures
            s@ == old(self).b@.subrange(old(self).p as int, old(self).p + n),
            final(self).b == old(self).b,
            final(self).p == old(self).p + n,
    {
        let _len = self.b.len();
        let p = self.p;
        let s = slice_subrange(self.b, p, p + n);
        self.p = p + n;
        s
    }
}

/// A string can be read at the cursor.
fn str_fits(c: &Cur) -> (r: bool)
    ensures
        r == (spec_str(c.b@, c.p as int) is Some),
{
    let n = c.b.len();
    if c.p > n || n - c.p < 8 {
        return false;
    }
    let mut d = Cur { b: c.b, p: c.p };
    let l = d.u64() as usize;
    l <= n - d.p
}

/// A scalar of type `t` can be skipped at the cursor.
fn scalar_fits(c: &Cur, t: u32) -> (r: bool)
    ensures
        r == (spec_scalar_end(c.b@, c.p as int, t) is Some),
{
    let n = c.b.len();
    if c.p > n {
        return false;
    }
    let room = n - c.p;
    if t == 8 {
        str_fits(c)
    } else if t == 0 || t == 1 || t == 7 {
        room >= 1
    } else if t == 2 || t == 3 {
        room >= 2
    } else if t == 4 || t == 5 || t == 6 {
        room >= 4
    } else if t == 10 || t == 11 || t == 12 {
        room >= 8
    } else {
        true
    }
}

/// Skip one scalar of type `t` (unknown types occupy nothing).
pub fn skip_scalar(c: &mut Cur, t: u32)
    requires
        spec_scalar_end(old(c).b@, old(c).p as int, t) is Some,
    ensures
        spec_scalar_end(old(c).b@, old(c).p as int, t) == Some(final(c).p as int),
        final(c).b == old(c).b,
{
    if t == 0 || t == 1 || t == 7 {
        c.bytes(1);
    } else if t == 2 || t == 3 {
        c.bytes(2);
    } else if t == 4 || t == 5 || t == 6 {
        c.bytes(4);
    } else if t == 8 {
        c.str();
    } else if t == 10 || t == 11 || t == 12 {
        c.bytes(8);
    }
}

proof fn lemma_array_none(b: Seq<u8>, p: int, t: u32, k: nat, n: nat)
    requires
        k <= n,
        spec_array_end(b, p, t, k) is None,
    ensures
        spec_array_end(b, p, t, n) is None,
    decreases n,
{
    if n > k {
        lemma_array_none(b, p, t, k, (n - 1) as nat);
    }
}

proof fn lemma_meta_list_none(b: Seq<u8>, p: int, k: nat, n: nat)
    requires
        k <= n,
        spec_meta_list(b, p, k) is None,
    ensures
        spec_meta_list(b, p, n) is None,
    decreases n,
{
    if n > k {
        lemma_meta_list_none(b, p, k, (n - 1) as nat);
    }
}

proof fn lemma_tensor_list_none(b: Seq<u8>, p: int, k: nat, n: nat)
    requires
        k <= n,
        spec_tensor_list(b, p, k) is None,
    ensures
        spec_tensor_list(b, p, n) is None,
    decreases n,
{
    if n > k {
        lemma_tensor_list_none(b, p, k, (n - 1) as nat);
    }
}

/// Read one typed metadata value (`None` where the input runs out).
pub fn read_meta_value(c: &mut Cur) -> (r: Option<Meta>)
    ensures
        final(c).b == old(c).b,
        (match spec_meta_value(old(c).b@, old(c).p as int) {
            None => r is None,
            Some((v, q)) => r matches Some(m) && m@ == v && final(c).p == q,
        }),
{
    let n = c.b.len();
    if c.p > n || n - c.p < 4 {
        return None;
    }
    let ghost b = c.b@;
    let ghost p0 = c.p as int;
    let t = c.u32();
    proof {
        vstd::arithmetic::power2::lemma2_to64();
    }
    if t == 8 {
        if str_fits(c) {
            Some(Meta::Str(c.str()))
        } else {
            None
        }
    } else if t == 9 {
        if n - c.p < 12 {
            return None;
        }
        let et = c.u32();
        let count = c.u64() as usize;
        let mut k: usize = 0;
        while k < count
            invariant
                c.b == old(c).b,
                old(c).b@ == b,
                old(c).p == p0,
                le32(b, p0) == 9,
                c.b@.len() == n,
                k <= count,
                count == (le64(b, p0 + 8) as usize),
                et == le32(b, p0 + 4),
                spec_array_end(b, p0 + 16, et, k as nat) == Some(c.p as int),
            decreases count - k,
        {
            if !scalar_fits(c, et) {
                proof {
                    lemma_array_none(b, p0 + 16, et, (k + 1) as nat, count as nat);
                }
                return None;
            }
            skip_scalar(c, et);
            k += 1;
        }
        Some(Meta::Other)
    } else if t > 12 {
        Some(Meta::Other)
    } else if !scalar_fits(c, t) {
        None
    } else if t == 0 || t == 7 {
        let s = c.bytes(1);
        Some(Meta::U(s[0] as u64))
    } else if t == 1 {
        let x = c.bytes(1)[0];
        Some(
            Meta::U(
                if x < 0x80 {
                    x as u64
                } else {
                    x as u64 + 0xFFFF_FFFF_FFFF_FF00
                },
            ),
        )
    } else if t == 2 || t == 3 {
        let s = c.bytes(2);
        let x = s[0] as u64 + (s[1] as u64) * 0x100;
        if t == 2 || x < 0x8000 {
            Some(Meta::U(x))
        } else {
            Some(Meta::U(x + 0xFFFF_FFFF_FFFF_0000))
        }
    } else if t == 4 || t == 5 {
        let x = c.u32() as u64;
        if t == 4 || x < 0x8000_0000 {
            Some(Meta::U(x))
        } else {
            Some(Meta::U(x + 0xFFFF_FFFF_0000_0000))
        }
    } else if t == 6 {
        Some(Meta::F32(c.u32()))
    } else if t == 12 {
        Some(Meta::F64(c.u64()))
    } else {
        Some(Meta::U(c.u64()))
    }
}

proof fn lemma_fits_prefix(d: Seq<u64>, i: int)
    requires
        dims_product_fits(d),
        0 <= i <= d.len(),
    ensures
        dims_product_fits(d.take(i)),
    decreases d.len(),
{
    if i == d.len() {
        assert(d.take(i) =~= d);
    } else {
        lemma_fits_prefix(d.drop_last(), i);
        assert(d.drop_last().take(i) =~= d.take(i));
    }
}

/// Read one tensor info (`None` where the input runs out or the element count
/// overflows).
fn read_tensor(c: &mut Cur) -> (r: Option<(String, TensorInfo)>)
    ensures
        final(c).b == old(c).b,
        (match spec_tensor(old(c).b@, old(c).p as int) {
            None => r is None,
            Some((t, q)) => r matches Some((name, info)) && name@ == t.0 && info == t.1
                && final(c).p == q,
        }),
{
    if !str_fits(c) {
        return None;
    }
    let ghost b = c.b@;
    let n = c.b.len();
    let name = c.str();
    if n - c.p < 4 {
        return None;
    }
    let nd = c.u32() as usize;
    let p2 = c.p;
    if nd > (n - p2) / 8 || (n - p2) - nd * 8 < 12 {
        return None;
    }
    let ghost dims = spec_dims(b, p2 as int, nd as nat);
    let mut prod: u64 = 1;
    let mut i: usize = 0;
    assert(dims.take(0) =~= Seq::<u64>::empty());
    while i < nd
        invariant
            c.b == old(c).b,
            old(c).b@ == b,
            spec_str(b, old(c).p as int) == Some((name@, p2 - 4)),
            le32(b, p2 - 4) == nd,
            c.b@.len() == n,
            p2 + 8 * nd + 12 <= n,
            i <= nd,
            c.p == p2 + 8 * i,
            dims == spec_dims(b, p2 as int, nd as nat),
            dims_product_fits(dims.take(i as int)),
            prod == dims_product(dims.take(i as int)),
        decreases nd - i,
    {
        let dv = c.u64();
        proof {
            assert(dims.take(i + 1).drop_last() =~= dims.take(i as int));
            assert(dims.take(i + 1).last() == dv);
        }
        match prod.checked_mul(dv) {
            Some(x) => {
                prod = x;
            },
            None => {
                proof {
                    if dims_product_fits(dims) {
                        lemma_fits_prefix(dims, i + 1);
                    }
                }
                return None;
            },
        }
        i += 1;
    }
    assert(dims.take(nd as int) =~= dims);
    let dtype = c.u32();
    let offset = c.u64() as usize;
    Some((name, TensorInfo { dtype, n_elems: prod as usize, offset }))
}

/// The index of the last of `keys` equal to `key`.
fn find_key<V>(keys: &Vec<String>, key: &str, Ghost(es): Ghost<Seq<(Seq<char>, V)>>) -> (r: Option<
    usize,
>)
    requires
        keys@.len() == es.len(),
        forall|j: int| 0 <= j < es.len() ==> es[j].0 == #[trigger] keys@[j]@,
    ensures
        r matches Some(i) ==> i < keys@.len() && find_last(es, key@) == Some(i as int),
        r is None ==> find_last(es, key@) is None,
{
    let mut i = keys.len();
    while i > 0
        invariant
            i <= keys@.len(),
            keys@.len() == es.len(),
            forall|j: int| 0 <= j < es.len() ==> es[j].0 == #[trigger] keys@[j]@,
            find_last_in(es, key@, i as int) == find_last(es, key@),
        decreases i,
    {
        if str_eq(keys[i - 1].as_str(), key) {
            return Some(i - 1);
        }
        i -= 1;
    }
    None
}

struct Header {
    meta_keys: Vec<String>,
    meta_vals: Vec<Meta>,
    tensor_names: Vec<String>,
    tensor_infos: Vec<TensorInfo>,
    data_start: usize,
}

spec fn header_is(h: Header, v: GgufView, b: Seq<u8>) -> bool {
    &&& h.meta_keys@.len() == v.meta.len()
    &&& h.meta_vals@.len() == v.meta.len()
    &&& forall|j: int|
        0 <= j < v.meta.len() ==> #[trigger] v.meta[j] == (h.meta_keys@[j]@, h.meta_vals@[j]@)
    &&& h.tensor_names@.len() == v.tensors.len()
    &&& h.tensor_infos@.len() == v.tensors.len()
    &&& forall|j: int|
        0 <= j < v.tensors.len() ==> #[trigger] v.tensors[j] == (
            h.tensor_names@[j]@,
            h.tensor_infos@[j],
        )
    &&& h.data_start <= b.len()
    &&& v.data == b.skip(h.data_start as int)
}

/// `count` metadata entries at the cursor.
fn read_meta_list(c: &mut Cur, count: usize) -> (r: Option<(Vec<String>, Vec<Meta>)>)
    ensures
        final(c).b == old(c).b,
        (match spec_meta_list(old(c).b@, old(c).p as int, count as nat) {
            None => r is None,
            Some((es, q)) => r matches Some((ks, vs)) && final(c).p == q && ks@.len() == es.len()
                && vs@.len() == es.len() && forall|j: int|
                0 <= j < es.len() ==> #[trigger] es[j] == (ks@[j]@, vs@[j]@),
        }),
{
    let ghost b = c.b@;
    let ghost p0 = c.p as int;
    let mut keys: Vec<String> = Vec::new();
    let mut vals: Vec<Meta> = Vec::new();
    let ghost mut es: Seq<(Seq<char>, MetaV)> = Seq::empty();
    let mut k: usize = 0;
    while k < count
        invariant
            c.b == old(c).b,
            old(c).b@ == b,
            old(c).p == p0,
            k <= count,
            spec_meta_list(b, p0, k as nat) == Some((es, c.p as int)),
            keys@.len() == k,
            vals@.len() == k,
            es.len() == k,
            forall|j: int| 0 <= j < k ==> #[trigger] es[j] == (keys@[j]@, vals@[j]@),
        decreases count - k,
    {
        if !str_fits(c) {
            proof {
                lemma_meta_list_none(b, p0, (k + 1) as nat, count as nat);
            }
            return None;
        }
        let key = c.str();
        let val = match read_meta_value(c) {
            Some(v) => v,
            None => {
                proof {
                    lemma_meta_list_none(b, p0, (k + 1) as nat, count as nat);
                }
                return None;
            },
        };
        proof {
            es = es.push((key@, val@));
        }
        keys.push(key);
        vals.push(val);
        k += 1;
    }
    Some((keys, vals))
}

/// `count` tensor infos at the cursor.
fn read_tensor_list(c: &mut Cur, count: usize) -> (r: Option<(Vec<String>, Vec<TensorInfo>)>)
    ensures
        final(c).b == old(c).b,
        (match spec_tensor_list(old(c).b@, old(c).p as int, count as nat) {
            None => r is None,
            Some((ts, q)) => r matches Some((ns, is)) && final(c).p == q && ns@.len() == ts.len()
                && is@.len() == ts.len() && forall|j: int|
                0 <= j < ts.len() ==> #[trigger] ts[j] == (ns@[j]@, is@[j]),
        }),
{
    let ghost b = c.b@;
    let ghost p0 = c.p as int;
    let mut names: Vec<String> = Vec::new();
    let mut infos: Vec<TensorInfo> = Vec::new();
    let ghost mut ts: Seq<(Seq<char>, TensorInfo)> = Seq::empty();
    let mut k: usize = 0;
    while k < count
        invariant
            c.b == old(c).b,
            old(c).b@ == b,
            old(c).p == p0,
            k <= count,
            spec_tensor_list(b, p0, k as nat) == Some((ts, c.p as int)),
            names@.len() == k,
            infos@.len() == k,
            ts.len() == k,
            forall|j: int| 0 <= j < k ==> #[trigger] ts[j] == (names@[j]@, infos@[j]),
        decreases count - k,
    {
        match read_tensor(c) {
            Some((name, info)) => {
                proof {
                    ts = ts.push((name@, info));
                }
                names.push(name);
                infos.push(info);
            },
            None => {
                proof {
                    lemma_tensor_list_none(b, p0, (k + 1) as nat, count as nat);
                }
                return None;
            },
        }
        k += 1;
    }
    Some((names, infos))
}

/// Where the tensor data starts (see [`spec_data_start`]).
fn data_start(keys: &Vec<String>, vals: &Vec<Meta>, p: usize, len: usize, Ghost(es): Ghost<
    Seq<(Seq<char>, MetaV)>,
>) -> (r: Option<usize>)
    requires
        keys@.len() == es.len(),
        vals@.len() == es.len(),
        forall|j: int| 0 <= j < es.len() ==> #[trigger] es[j] == (keys@[j]@, vals@[j]@),
    ensures
        (match spec_data_start(es, p as int, len as int) {
            None => r is None,
            Some(ds) => r == Some(ds as usize),
        }),
{
    let alignment: usize = match find_key::<MetaV>(keys, "general.alignment", Ghost(es)) {
        Some(i) => match &vals[i] {
            Meta::U(a) => *a as usize,
            _ => 32,
        },
        None => 32,
    };
    assert(alignment == spec_alignment(es));
    if alignment == 0 {
        return None;
    }
    let q = p / alignment;
    let ds = if p % alignment == 0 {
        p
    } else {
        proof {
            assert(q < usize::MAX) by (nonlinear_arith)
                requires
                    alignment > 0,
                    q == p / alignment,
                    p % alignment != 0,
                    p <= usize::MAX,
            ;
        }
        match (q + 1).checked_mul(alignment) {
            Some(d) => d,
            None => {
                return None;
            },
        }
    };
    if ds > len {
        return None;
    }
    Some(ds)
}

#[verifier::rlimit(40)]
fn parse_header(b: &[u8]) -> (r: Option<Result<Header, ()>>)
    ensures
        (match spec_gguf(b@) {
            None => r is None,
            Some(Err(())) => r matches Some(Err(())),
            Some(Ok(v)) => r matches Some(Ok(h)) && header_is(h, v, b@),
        }),
{
    let n = b.len();
    if n < 4 {
        return None;
    }
    if !(b[0] == 0x47 && b[1] == 0x47 && b[2] == 0x55 && b[3] == 0x46) {
        proof {
            if b@.subrange(0, 4) == gguf_magic() {
                assert(b@.subrange(0, 4)[0] == b@[0]);
                assert(b@.subrange(0, 4)[1] == b@[1]);
                assert(b@.subrange(0, 4)[2] == b@[2]);
                assert(b@.subrange(0, 4)[3] == b@[3]);
            }
        }
        return Some(Err(()));
    }
    assert(b@.subrange(0, 4) =~= gguf_magic());
    if n < 24 {
        return None;
    }
    let mut c = Cur { b, p: 4 };
    let _version = c.u32();
    let n_tensors = c.u64() as usize;
    let n_meta = c.u64() as usize;
    let (meta_keys, meta_vals) = match read_meta_list(&mut c, n_meta) {
        Some(m) => m,
        None => {
            return None;
        },
    };
    let ghost es = spec_meta_list(b@, 24, n_meta as nat)->Some_0.0;
    let (tensor_names, tensor_infos) = match read_tensor_list(&mut c, n_tensors) {
        Some(t) => t,
        None => {
            return None;
        },
    };
    // Tensor data begins at the next `alignment` boundary after the header.
    let data_start = match data_start(&meta_keys, &meta_vals, c.p, n, Ghost(es)) {
        Some(d) => d,
        None => {
            return None;
        },
    };
    Some(Ok(Header { meta_keys, meta_vals, tensor_names, tensor_infos, data_start }))
}

impl View for GgufWeights {
    type V = GgufView;

    closed spec fn view(&self) -> GgufView {
        GgufView {
            meta: Seq::new(
                self.meta_keys@.len(),
                |i: int| (self.meta_keys@[i]@, self.meta_vals@[i]@),
            ),
            tensors: Seq::new(
                self.tensor_names@.len(),
                |i: int| (self.tensor_names@[i]@, self.tensor_infos@[i]),
            ),
            data: self.data@,
        }
    }
}

impl GgufWeights {
    #[verifier::type_invariant]
    closed spec fn wf(&self) -> bool {
        &&& self.meta_keys@.len() == self.meta_vals@.len()
        &&& self.tensor_names@.len() == self.tensor_infos@.len()
    }

    /// The input is a GGUF file whose header can be read to its end (or is
    /// not GGUF at all): [`GgufWeights::parse`] accepts it without running
    /// off the input.
    pub fn readable(bytes: &[u8]) -> (r: bool)
        ensures
            r == (spec_gguf(bytes@) is Some),
    {
        parse_header(bytes).is_some()
    }

    /// Parse a whole GGUF file (already in memory).
    pub fn parse(bytes: Vec<u8>) -> (r: Result<Self, String>)
        requires
            spec_gguf(bytes@) is Some,
        ensures
            (match spec_gguf(bytes@) {
                Some(Ok(v)) => r matches Ok(w) && w@ == v,
                _ => r matches Err(e) && e@ == "not a GGUF file"@,
            }),
    {
        match parse_header(&bytes) {
            Some(Ok(h)) => {
                let ghost v = spec_gguf(bytes@)->Some_0->Ok_0;
                let mut bytes = bytes;
                let data = bytes.split_off(h.data_start);
                let w = GgufWeights {
                    meta_keys: h.meta_keys,
                    meta_vals: h.meta_vals,
                    tensor_names: h.tensor_names,
                    tensor_infos: h.tensor_infos,
                    data,
                };
                assert(w@.meta =~= v.meta);
                assert(w@.tensors =~= v.tensors);
                assert(w@.data =~= v.data);
                Ok(w)
            },
            _ => Err(String::from_str("not a GGUF file")),
        }
    }

    /// Is a tensor of this name present?
    pub fn has(&self, name: &str) -> (r: bool)
        ensures
            r == (find_last(self@.tensors, name@) is Some),
    {
        proof {
            use_type_invariant(self);
        }
        find_key::<TensorInfo>(&self.tensor_names, name, Ghost(self@.tensors)).is_some()
    }

    /// The metadata value stored under `key` (the last one, for a repeated key).
    pub fn meta(&self, key: &str) -> (r: Option<&Meta>)
        ensures
            r matches Some(m) ==> lookup(self@.meta, key@) == Some(m@),
            r is None ==> lookup(self@.meta, key@) is None,
    {
        proof {
            use_type_invariant(self);
        }
        match find_key::<MetaV>(&self.meta_keys, key, Ghost(self@.meta)) {
            Some(i) => Some(&self.meta_vals[i]),
            None => None,
        }
    }

    /// The metadata value under `key` read as a `u32` (0 when absent).
    pub fn meta_u32(&self, key: &str) -> (r: u32)
        ensures
            r == meta_as_u32(lookup(self@.meta, key@)),
    {
        match self.meta(key) {
            Some(Meta::U(v)) => *v as u32,
            Some(Meta::F32(b)) => f32_bits_to_u32(*b),
            Some(Meta::F64(b)) => f64_bits_to_u32(*b),
            _ => 0,
        }
    }

    /// Decode a tensor to binary32 bit patterns, in its stored shape.
    pub fn tensor_f32(&self, name: &str) -> (r: Result<Vec<u32>, TensorError>)
        ensures
            (match lookup(self@.tensors, name@) {
                None => r == Err::<Vec<u32>, TensorError>(TensorError::Missing),
                Some(t) => tensor_decodes(t, self@.data, r),
            }),
    {
        proof {
            use_type_invariant(self);
        }
        let i = match find_key::<TensorInfo>(&self.tensor_names, name, Ghost(self@.tensors)) {
            Some(i) => i,
            None => {
                return Err(TensorError::Missing);
            },
        };
        let t = self.tensor_infos[i];
        let len = self.data.len();
        if t.offset > len {
            return Err(TensorError::Truncated);
        }
        let b = slice_subrange(self.data.as_slice(), t.offset, len);
        assert(b@ =~= self@.data.skip(t.offset as int));
        let n = t.n_elems;
        let room = len - t.offset;
        if t.dtype == 0 {
            if fits(n, 4, room) {
                Ok(dequant::dequant_f32(b, n))
            } else {
                Err(TensorError::Truncated)
            }
        } else if t.dtype == 1 {
            if fits(n, 2, room) {
                Ok(dequant::dequant_f16(b, n))
            } else {
                Err(TensorError::Truncated)
            }
        } else if t.dtype == 2 {
            if fits(n / 32, 18, room) {
                Ok(dequant::dequant_q4_0(b, n))
            } else {
                Err(TensorError::Truncated)
            }
        } else if t.dtype == 8 {
            if fits(n / 32, 34, room) {
                Ok(dequant::dequant_q8_0(b, n))
            } else {
                Err(TensorError::Truncated)
            }
        } else if t.dtype == 3 {
            if fits(n / 32, 20, room) {
                Ok(dequant::dequant_q4_1(b, n))
            } else {
                Err(TensorError::Truncated)
            }
        } else if t.dtype == 14 {
            if fits(n / 256, 210, room) {
                Ok(dequant::dequant_q6_k(b, n))
            } else {
                Err(TensorError::Truncated)
            }
        } else {
            Err(TensorError::UnsupportedDtype(t.dtype))
        }
    }
}

/// `count` items of `width` bytes fit in `room` bytes.
fn fits(count: usize, width: usize, room: usize) -> (r: bool)
    requires
        width > 0,
    ensures
        r == (count * width <= room),
{
    proof {
        assert((count <= room / width) == (count * width <= room)) by (nonlinear_arith)
            requires
                width > 0,
        ;
    }
    count <= room / width
}

} // verus!
