//! Weight-layout transforms applied at load time.
//!
//! GGUF and HF store a projection matrix row-major as `[out, in]`; the matmul
//! kernel reads its B operand as `[in, out]`.

use vstd::prelude::*;

verus! {

proof fn lemma_row_major(i: int, o: int, rows: int, cols: int)
    requires
        0 <= i < rows,
        0 <= o < cols,
    ensures
        0 <= i * cols + o < rows * cols,
        i * cols + o + 1 <= (i + 1) * cols,
{
    assert(0 <= i * cols + o < rows * cols) by (nonlinear_arith)
        requires
            0 <= i < rows,
            0 <= o < cols,
    ;
    assert(i * cols + o + 1 <= (i + 1) * cols) by (nonlinear_arith)
        requires
            0 <= o < cols,
    ;
}

/// Transpose a row-major `[out_f, in_f]` matrix into row-major `[in_f, out_f]`.
pub fn transpose<T: Copy>(w: &[T], in_f: usize, out_f: usize) -> (b: Vec<T>)
    requires
        in_f * out_f <= w@.len(),
    ensures
        b@.len() == in_f * out_f,
        forall|i: int, o: int|
            0 <= i < in_f && 0 <= o < out_f ==> #[trigger] b@[i * out_f + o] == w@[o * in_f + i],
{
    let mut b: Vec<T> = Vec::new();
    let mut i: usize = 0;
    let wl = w.len();
    while i < in_f
        invariant
            wl == w@.len(),
            in_f * out_f <= w@.len(),
            i <= in_f,
            b@.len() == i * out_f,
            forall|i2: int, o2: int|
                0 <= i2 < i && 0 <= o2 < out_f ==> #[trigger] b@[i2 * out_f + o2] == w@[o2 * in_f
                    + i2],
        decreases in_f - i,
    {
        let mut o: usize = 0;
        while o < out_f
            invariant
                wl == w@.len(),
                in_f * out_f <= w@.len(),
                i < in_f,
                o <= out_f,
                b@.len() == i * out_f + o,
                forall|i2: int, o2: int|
                    0 <= i2 < i && 0 <= o2 < out_f ==> #[trigger] b@[i2 * out_f + o2] == w@[o2
                        * in_f + i2],
                forall|o2: int| 0 <= o2 < o ==> #[trigger] b@[i * out_f + o2] == w@[o2 * in_f + i],
            decreases out_f - o,
        {
            proof {
                lemma_row_major(o as int, i as int, out_f as int, in_f as int);
                assert(o * in_f == in_f * o) by (nonlinear_arith);
                assert(out_f * in_f == in_f * out_f) by (nonlinear_arith);
            }
            let v = w[o * in_f + i];
            let ghost before = b@;
            b.push(v);
            proof {
                assert forall|i2: int, o2: int|
                    0 <= i2 < i && 0 <= o2 < out_f implies #[trigger] b@[i2 * out_f + o2] == w@[o2
                    * in_f + i2] by {
                    lemma_row_major(i2, o2, i as int, out_f as int);
                }
            }
            o += 1;
        }
        proof {
            assert((i + 1) * out_f == i * out_f + out_f) by (nonlinear_arith);
            assert forall|i2: int, o2: int|
                0 <= i2 < i + 1 && 0 <= o2 < out_f implies #[trigger] b@[i2 * out_f + o2] == w@[o2
                * in_f + i2] by {
                if i2 == i {
                } else {
                    lemma_row_major(i2, o2, i as int, out_f as int);
                }
            }
        }
        i += 1;
    }
    b
}

/// Where part `p` of a column-wise concatenation starts: the widths of the
/// parts before it, added up.
pub open spec fn col_start(widths: Seq<usize>, p: int) -> int
    decreases p,
{
    if p <= 0 {
        0
    } else {
        col_start(widths, p - 1) + widths[p - 1]
    }
}

proof fn lemma_col_start_mono(widths: Seq<usize>, p: int, q: int)
    requires
        0 <= p <= q,
    ensures
        col_start(widths, p) <= col_start(widths, q),
        0 <= col_start(widths, p),
    decreases q,
{
    if p < q {
        lemma_col_start_mono(widths, p, q - 1);
    } else if p > 0 {
        lemma_col_start_mono(widths, p - 1, p - 1);
    }
}

proof fn lemma_cell_before(i2: int, c2: int, i: int, c: int, total: int)
    requires
        0 <= i2 < i,
        0 <= c2 < total,
        0 <= c,
    ensures
        i2 * total + c2 < i * total + c,
{
    assert(i2 * total + total <= i * total) by (nonlinear_arith)
        requires
            0 <= i2 < i,
            0 <= total,
    ;
}

/// Concatenate row-major `[in_f, widths[p]]` matrices along their columns into
/// one row-major `[in_f, sum(widths)]` matrix: part `p` fills the columns from
/// `col_start(widths, p)` on. (What loads fused projections such as q/k/v as
/// one matmul operand.)
pub fn concat_columns<T: Copy>(parts: &Vec<Vec<T>>, widths: &Vec<usize>, in_f: usize) -> (out: Vec<
    T,
>)
    requires
        parts@.len() == widths@.len(),
        forall|p: int| 0 <= p < parts@.len() ==> in_f * widths@[p] <= #[trigger] parts@[p]@.len(),
        col_start(widths@, widths@.len() as int) * in_f <= usize::MAX,
        col_start(widths@, widths@.len() as int) <= usize::MAX,
    ensures
        out@.len() == in_f * col_start(widths@, widths@.len() as int),
        forall|i: int, p: int, o: int|
            0 <= i < in_f && 0 <= p < parts@.len() && 0 <= o < widths@[p] ==> #[trigger] out@[i
                * col_start(widths@, widths@.len() as int) + col_start(widths@, p) + o]
                == parts@[p]@[i * widths@[p] + o],
{
    let n = widths.len();
    let ghost ws = widths@;
    let ghost total_s = col_start(ws, n as int);
    let mut total: usize = 0;
    let mut p: usize = 0;
    while p < n
        invariant
            n == ws.len(),
            ws == widths@,
            total_s == col_start(ws, n as int),
            total_s <= usize::MAX,
            p <= n,
            total == col_start(ws, p as int),
        decreases n - p,
    {
        proof {
            lemma_col_start_mono(ws, p as int + 1, n as int);
        }
        total = total + widths[p];
        p += 1;
    }
    let mut out: Vec<T> = Vec::new();
    let mut i: usize = 0;
    while i < in_f
        invariant
            n == ws.len(),
            ws == widths@,
            parts@.len() == n,
            forall|p: int| 0 <= p < n ==> in_f * ws[p] <= #[trigger] parts@[p]@.len(),
            total == col_start(ws, n as int),
            total * in_f <= usize::MAX,
            i <= in_f,
            out@.len() == i * total,
            forall|i2: int, p2: int, o2: int|
                0 <= i2 < i && 0 <= p2 < n && 0 <= o2 < ws[p2] ==> #[trigger] out@[i2 * total
                    + col_start(ws, p2) + o2] == parts@[p2]@[i2 * ws[p2] + o2],
        decreases in_f - i,
    {
        let mut p: usize = 0;
        while p < n
            invariant
                n == ws.len(),
                ws == widths@,
                parts@.len() == n,
                forall|p: int| 0 <= p < n ==> in_f * ws[p] <= #[trigger] parts@[p]@.len(),
                total == col_start(ws, n as int),
                total * in_f <= usize::MAX,
                i < in_f,
                p <= n,
                out@.len() == i * total + col_start(ws, p as int),
                forall|i2: int, p2: int, o2: int|
                    0 <= i2 < i && 0 <= p2 < n && 0 <= o2 < ws[p2] ==> #[trigger] out@[i2 * total
                        + col_start(ws, p2) + o2] == parts@[p2]@[i2 * ws[p2] + o2],
                forall|p2: int, o2: int|
                    0 <= p2 < p && 0 <= o2 < ws[p2] ==> #[trigger] out@[i * total + col_start(
                        ws,
                        p2,
                    ) + o2] == parts@[p2]@[i * ws[p2] + o2],
            decreases n - p,
        {
            let w = widths[p];
            let part = &parts[p];
            let plen = part.len();
            let mut o: usize = 0;
            while o < w
                invariant
                    n == ws.len(),
                    ws == widths@,
                    parts@.len() == n,
                    forall|p: int| 0 <= p < n ==> in_f * ws[p] <= #[trigger] parts@[p]@.len(),
                    total == col_start(ws, n as int),
                    total * in_f <= usize::MAX,
                    i < in_f,
                    p < n,
                    w == ws[p as int],
                    *part == parts@[p as int],
                    plen == part@.len(),
                    o <= w,
                    out@.len() == i * total + col_start(ws, p as int) + o,
                    forall|i2: int, p2: int, o2: int|
                        0 <= i2 < i && 0 <= p2 < n && 0 <= o2 < ws[p2] ==> #[trigger] out@[i2
                            * total + col_start(ws, p2) + o2] == parts@[p2]@[i2 * ws[p2] + o2],
                    forall|p2: int, o2: int|
                        0 <= p2 < p && 0 <= o2 < ws[p2] ==> #[trigger] out@[i * total + col_start(
                            ws,
                            p2,
                        ) + o2] == parts@[p2]@[i * ws[p2] + o2],
                    forall|o2: int|
                        0 <= o2 < o ==> #[trigger] out@[i * total + col_start(ws, p as int) + o2]
                            == parts@[p as int]@[i * w + o2],
                decreases w - o,
            {
                proof {
                    lemma_row_major(i as int, o as int, in_f as int, w as int);
                    assert(in_f * w == w * in_f) by (nonlinear_arith);
                    lemma_col_start_mono(ws, p as int + 1, n as int);
                    assert(col_start(ws, p as int + 1) == col_start(ws, p as int) + ws[p as int]);
                    lemma_col_start_mono(ws, 0, p as int);
                    lemma_row_major(i as int, col_start(ws, p as int) + o, in_f as int, total as int);
                    assert(in_f * ws[p as int] <= parts@[p as int]@.len());
                    assert(total * in_f == in_f * total) by (nonlinear_arith);
                }
                let v = part[i * w + o];
                let ghost before = out@;
                out.push(v);
                proof {
                    assert forall|i2: int, p2: int, o2: int|
                        0 <= i2 < i && 0 <= p2 < n && 0 <= o2 < ws[p2] implies #[trigger] out@[i2
                        * total + col_start(ws, p2) + o2] == parts@[p2]@[i2 * ws[p2] + o2] by {
                        lemma_col_start_mono(ws, p2 + 1, n as int);
                        lemma_col_start_mono(ws, 0, p2);
                        assert(col_start(ws, p2 + 1) == col_start(ws, p2) + ws[p2]);
                        lemma_col_start_mono(ws, 0, p as int);
                        lemma_cell_before(
                            i2,
                            col_start(ws, p2) + o2,
                            i as int,
                            col_start(ws, p as int) + o,
                            total as int,
                        );
                        assert(out@[i2 * total + col_start(ws, p2) + o2] == before[i2 * total
                            + col_start(ws, p2) + o2]);
                    }
                    assert forall|p2: int, o2: int|
                        0 <= p2 < p && 0 <= o2 < ws[p2] implies #[trigger] out@[i * total
                        + col_start(ws, p2) + o2] == parts@[p2]@[i * ws[p2] + o2] by {
                        lemma_col_start_mono(ws, p2 + 1, p as int);
                        lemma_col_start_mono(ws, 0, p2);
                        assert(col_start(ws, p2 + 1) == col_start(ws, p2) + ws[p2]);
                        assert(out@[i * total + col_start(ws, p2) + o2] == before[i * total
                            + col_start(ws, p2) + o2]);
                    }
                }
                o += 1;
            }
            p += 1;
        }
        proof {
            assert((i + 1) * total == i * total + total) by (nonlinear_arith);
        }
        i += 1;
    }
    proof {
        assert(in_f * total == total * in_f) by (nonlinear_arith);
    }
    out
}

/// The summed width of column-concatenated parts, if it fits a `usize`.
pub fn total_width(widths: &Vec<usize>) -> (r: Option<usize>)
    ensures
        r matches Some(t) ==> t == col_start(widths@, widths@.len() as int),
        r is None <==> col_start(widths@, widths@.len() as int) > usize::MAX,
{
    let n = widths.len();
    let mut total: usize = 0;
    let mut p: usize = 0;
    while p < n
        invariant
            n == widths@.len(),
            p <= n,
            total == col_start(widths@, p as int),
        decreases n - p,
    {
        match total.checked_add(widths[p]) {
            Some(t) => total = t,
            None => {
                proof {
                    lemma_col_start_mono(widths@, p as int + 1, n as int);
                }
                return None;
            },
        }
        p += 1;
    }
    Some(total)
}

} // verus!
