//! Matrix products, with weights unpacked piece by piece.
use vstd::prelude::*;
use vstd::string::*;
use crate::arith::{ceil_div, lemma_ceil_div, lemma_mul_le};
use crate::gguf::types::{GgmlType, bytes_per_block, weights_per_block};
use crate::kernel::loader::KernelError;
use crate::text::{decimal, to_decimal};

verus! {

/// The most elements that are unpacked at a time.
pub const MAX_SCRATCH_ELEMENTS: usize = 67_108_864;

/// A column-major product: `op(a) * op(b)` of `m` by `n`, over `k`, and the
/// distances between columns. The first operand is transposed where said.
#[derive(Clone, Copy, Debug, PartialEq, Eq, Structural)]
pub struct GemmShape {
    pub transposes_first: bool,
    pub m: i32,
    pub n: i32,
    pub k: i32,
    pub lda: i32,
    pub ldb: i32,
    pub ldc: i32,
}

/// Products of equal shape, `stride` elements apart.
#[derive(Clone, Copy, Debug, PartialEq, Eq, Structural)]
pub struct BatchedShape {
    pub gemm: GemmShape,
    pub batch_size: i32,
    pub stride_a: i64,
    pub stride_b: i64,
    pub stride_c: i64,
}

/// A batch of products with quantised weights: where each unpacked matrix
/// goes, and the products.
#[derive(Debug)]
pub struct BatchedPlan {
    pub ranges: Vec<(usize, usize)>,
    pub products: BatchedShape,
}

/// The place of an element in a column-major matrix.
pub open spec fn column_major(row: int, column: int, distance: int) -> int {
    column * distance + row
}

/// The place of an element in a row-major matrix.
pub open spec fn row_major(row: int, column: int, width: int) -> int {
    row * width + column
}

/// Where a product reads element `p` of the sum for entry (`i`, `j`) of its
/// result, and where it writes that entry: first operand, second operand,
/// result.
pub open spec fn product_places(shape: GemmShape, i: int, j: int, p: int) -> (int, int, int) {
    (
        if shape.transposes_first {
            column_major(p, i, shape.lda as int)
        } else {
            column_major(i, p, shape.lda as int)
        },
        column_major(p, j, shape.ldb as int),
        column_major(i, j, shape.ldc as int),
    )
}

/// The product of rows with rows: `c[m, n] = a[m, k] * b[n, k]` transposed,
/// all row-major, with `b` as the first operand.
pub open spec fn row_product(m: int, n: int, k: int) -> GemmShape {
    GemmShape {
        transposes_first: true,
        m: n as i32,
        n: m as i32,
        k: k as i32,
        lda: k as i32,
        ldb: k as i32,
        ldc: n as i32,
    }
}

/// A product whose entries read row `r` of `a` and row `s` of `b` writes entry
/// (`r`, `s`) of the row-major result.
pub proof fn law_row_product_reads_rows(m: int, n: int, k: int, r: int, s: int, p: int)
    requires
        0 < m <= i32::MAX,
        0 < n <= i32::MAX,
        0 < k <= i32::MAX,
        0 <= r < m,
        0 <= s < n,
        0 <= p < k,
    ensures
        product_places(row_product(m, n, k), s, r, p) == (
            row_major(s, p, k),
            row_major(r, p, k),
            row_major(r, s, n),
        ),
{
}

/// The product of rows with columns: `c[m, n] = a[m, k] * b[k, n]`, all
/// row-major, with `b` as the first operand.
pub open spec fn plain_product(m: int, n: int, k: int) -> GemmShape {
    GemmShape {
        transposes_first: false,
        m: n as i32,
        n: m as i32,
        k: k as i32,
        lda: n as i32,
        ldb: k as i32,
        ldc: n as i32,
    }
}

/// A product whose entries read row `r` of `a` and column `s` of `b` writes
/// entry (`r`, `s`) of the row-major result.
pub proof fn law_plain_product_reads_columns(m: int, n: int, k: int, r: int, s: int, p: int)
    requires
        0 < m <= i32::MAX,
        0 < n <= i32::MAX,
        0 < k <= i32::MAX,
        0 <= r < m,
        0 <= s < n,
        0 <= p < k,
    ensures
        product_places(plain_product(m, n, k), s, r, p) == (
            row_major(p, s, n),
            row_major(r, p, k),
            row_major(r, s, n),
        ),
{
}

/// A stretch of output columns and the weights they take.
#[derive(Clone, Copy, Debug, PartialEq, Eq, Structural)]
pub struct Chunk {
    /// The first output column.
    pub first: u32,
    /// How many there are.
    pub rows: u32,
    /// How many elements are unpacked.
    pub elements: u32,
    /// Where their bytes begin and end.
    pub byte_start: usize,
    pub byte_end: usize,
}

/// How a product with quantised weights is computed.
#[derive(Debug)]
pub enum DequantPlan {
    /// All weights at once.
    Whole { elements: u32 },
    /// Piece by piece.
    Chunks(Vec<Chunk>),
}

/// How many bytes a row of weights takes.
pub open spec fn row_bytes(k: int, t: GgmlType) -> int {
    ceil_div(k, weights_per_block(t) as int) * bytes_per_block(t)
}

/// How many rows fit into the scratch space.
pub open spec fn rows_that_fit(scratch: int, k: int) -> int {
    scratch / k
}

/// How many rows are taken at a time: as many as fit, in whole blocks where a
/// block of rows fits.
pub open spec fn rows_per_chunk(scratch: int, k: int, t: GgmlType) -> int {
    let most = rows_that_fit(scratch, k);
    let block = weights_per_block(t) as int;
    if block > 1 && most >= block {
        most / block * block
    } else {
        most
    }
}

/// How many rows the chunk from row `first` on has.
pub open spec fn chunk_rows(scratch: int, n: int, k: int, t: GgmlType, first: int) -> int {
    if n - first <= rows_that_fit(scratch, k) {
        n - first
    } else {
        rows_per_chunk(scratch, k, t)
    }
}

/// The chunks from row `first` on.
pub open spec fn chunks_from(scratch: int, n: int, k: int, t: GgmlType, first: int) -> Seq<Chunk>
    decreases n - first,
{
    let rows = chunk_rows(scratch, n, k, t, first);
    if first >= n || rows <= 0 || first + rows > n {
        Seq::empty()
    } else {
        seq![
            Chunk {
                first: first as u32,
                rows: rows as u32,
                elements: (rows * k) as u32,
                byte_start: (first * row_bytes(k, t)) as usize,
                byte_end: ((first + rows) * row_bytes(k, t)) as usize,
            },
        ] + chunks_from(scratch, n, k, t, first + rows)
    }
}

/// The chunks follow one another from row `first` to row `n`.
pub open spec fn tiles(chunks: Seq<Chunk>, first: int, n: int) -> bool
    decreases chunks.len(),
{
    if chunks.len() == 0 {
        first >= n
    } else {
        chunks[0].first == first && chunks[0].rows > 0 && first + chunks[0].rows <= n && tiles(
            chunks.skip(1),
            first + chunks[0].rows,
            n,
        )
    }
}

/// The chunks cover every output column exactly once, in order, and none is
/// larger than the scratch space.
pub proof fn law_chunks_tile_the_output(scratch: int, n: int, k: int, t: GgmlType)
    requires
        0 < k,
        0 <= n <= u32::MAX,
        n * k <= u32::MAX,
        k <= scratch,
    ensures
        tiles(chunks_from(scratch, n, k, t, 0), 0, n),
        forall|i: int|
            0 <= i < chunks_from(scratch, n, k, t, 0).len() ==> (
            #[trigger] chunks_from(scratch, n, k, t, 0)[i]).elements <= scratch,
{
    lemma_fit(scratch, k, t);
    lemma_tiles(scratch, n, k, t, 0);
}

proof fn lemma_fit(scratch: int, k: int, t: GgmlType)
    requires
        0 < k,
        scratch >= 0,
    ensures
        rows_that_fit(scratch, k) * k <= scratch,
        0 <= rows_per_chunk(scratch, k, t) <= rows_that_fit(scratch, k),
        k <= scratch ==> rows_per_chunk(scratch, k, t) > 0,
{
    let q = scratch / k;
    vstd::arithmetic::div_mod::lemma_fundamental_div_mod(scratch, k);
    vstd::arithmetic::div_mod::lemma_mod_bound(scratch, k);
    assert(q * k == k * q) by (nonlinear_arith);
    assert(q >= 0) by {
        vstd::arithmetic::div_mod::lemma_div_pos_is_pos(scratch, k);
    }
    let r = scratch % k;
    if k <= scratch {
        assert(q > 0) by (nonlinear_arith)
            requires
                scratch == k * q + r,
                0 <= r < k,
                0 < k <= scratch,
        ;
    }
    let b = weights_per_block(t) as int;
    if b == 32 {
        assert(0 <= q / 32 * 32 <= q);
        assert(q >= 32 ==> q / 32 * 32 > 0);
    } else if b == 256 {
        assert(0 <= q / 256 * 256 <= q);
        assert(q >= 256 ==> q / 256 * 256 > 0);
    }
}

proof fn lemma_tiles(scratch: int, n: int, k: int, t: GgmlType, first: int)
    requires
        0 < k,
        0 <= first <= n <= u32::MAX,
        n * k <= u32::MAX,
        rows_per_chunk(scratch, k, t) > 0,
        scratch >= 0,
    ensures
        tiles(chunks_from(scratch, n, k, t, first), first, n),
        forall|i: int|
            0 <= i < chunks_from(scratch, n, k, t, first).len() ==> (
            #[trigger] chunks_from(scratch, n, k, t, first)[i]).elements <= scratch,
    decreases n - first,
{
    lemma_fit(scratch, k, t);
    let rows = chunk_rows(scratch, n, k, t, first);
    let all = chunks_from(scratch, n, k, t, first);
    if first < n {
        assert(0 < rows <= n - first);
        let rest = chunks_from(scratch, n, k, t, first + rows);
        lemma_tiles(scratch, n, k, t, first + rows);
        lemma_mul_le(rows, k, rows_that_fit(scratch, k), k);
        lemma_mul_le(rows, k, n, k);
        assert(rows * k >= 0) by (nonlinear_arith)
            requires
                rows > 0,
                k > 0,
        ;
        assert(all.skip(1) =~= rest);
        assert forall|i: int| 0 <= i < all.len() implies (#[trigger] all[i]).elements <= scratch by {
            if i > 0 {
                assert(all[i] == rest[i - 1]);
            }
        }
    }
}

/// Matrix products with scratch space for unpacked weights.
pub struct Gemm {
    scratch: usize,
}

/// The numbers of a chunked product can be counted, and at least one row fits.
pub open spec fn chunkable(scratch: int, n: u32, k: u32, t: GgmlType) -> bool {
    &&& n * k <= u32::MAX
    &&& n * k > scratch ==> {
        &&& rows_that_fit(scratch, k as int) <= u32::MAX
        &&& k <= scratch
        &&& n * row_bytes(k as int, t) <= usize::MAX
        &&& n * row_bytes(k as int, t) <= u64::MAX
    }
}

/// Why products cannot be batched, if they cannot.
pub open spec fn batch_fault(scratch: int, batch: int, n: int, k: int) -> Option<Seq<char>> {
    if batch > 0 && batch * n * k > scratch {
        Some(
            "cuBLAS error: batched dequant scratch too small: need "@ + decimal(
                (batch * n * k) as nat,
            ) + " elements, have "@ + decimal(scratch as nat),
        )
    } else {
        None
    }
}

/// The counts of a batch of products can be told.
pub open spec fn batchable(batch_size: usize, m: u32, n: u32, k: u32) -> bool {
    &&& m <= i32::MAX
    &&& n <= i32::MAX
    &&& k <= i32::MAX
    &&& batch_size <= i32::MAX
    &&& batch_size * n <= u32::MAX
    &&& batch_size * n * k <= u32::MAX
    &&& m * n <= u32::MAX
}

impl Gemm {
    /// How many elements can be unpacked at a time.
    pub closed spec fn room(self) -> usize {
        self.scratch
    }

    /// Products over weights of at most that many elements.
    pub fn new(max_weight_elements: usize) -> (gemm: Self)
        ensures
            gemm.room() == (if max_weight_elements < MAX_SCRATCH_ELEMENTS {
                max_weight_elements
            } else {
                MAX_SCRATCH_ELEMENTS
            }),
    {
        Gemm {
            scratch: if max_weight_elements < MAX_SCRATCH_ELEMENTS {
                max_weight_elements
            } else {
                MAX_SCRATCH_ELEMENTS
            },
        }
    }

    /// How many elements can be unpacked at a time.
    pub fn scratch_elements(&self) -> (n: usize)
        ensures
            n == self.room(),
    {
        self.scratch
    }

    /// How a product with `n` rows of `k` quantised weights is computed.
    pub fn matmul_dequant(&self, b_type: GgmlType, b_elements: u32, n: u32, k: u32) -> (plan:
        DequantPlan)
        requires
            chunkable(self.room() as int, n, k, b_type),
        ensures
            match plan {
                DequantPlan::Whole { elements } => n * k <= self.room() && elements == b_elements,
                DequantPlan::Chunks(chunks) => n * k > self.room() && chunks@ == chunks_from(
                    self.room() as int,
                    n as int,
                    k as int,
                    b_type,
                    0,
                ),
            },
    {
        let total: u32 = n * k;
        if total as u64 <= self.scratch as u64 {
            return DequantPlan::Whole { elements: b_elements };
        }
        proof {
            if k == 0 {
                assert(n * k == 0) by (nonlinear_arith)
                    requires
                        k == 0,
                ;
            }
            lemma_fit(self.scratch as int, k as int, b_type);
        }
        let ghost scratch = self.scratch as int;
        let ghost width = row_bytes(k as int, b_type);
        let most: u32 = (self.scratch / k as usize) as u32;
        let block: u32 = b_type.block_size() as u32;
        let bytes: u64 = b_type.block_bytes() as u64;
        let aligned: u32 = if block > 1 && most >= block {
            most / block * block
        } else {
            most
        };
        proof {
            lemma_ceil_div(k as int, block as int);
            assert(width >= 0) by (nonlinear_arith)
                requires
                    width == ceil_div(k as int, block as int) * bytes,
                    ceil_div(k as int, block as int) >= 0,
                    bytes >= 0,
            ;
            if n >= 1 {
                lemma_mul_le(1, width, n as int, width);
            }
            if n == 0 {
                assert(n * k == 0) by (nonlinear_arith)
                    requires
                        n == 0,
                ;
            }
        }
        let blocks_per_row: u64 = (k as u64 + block as u64 - 1) / block as u64;
        proof {
            assert(block == 1 || block == 32 || block == 256);
            if block == 1 {
                assert((k + 0) / 1 == k);
            } else if block == 32 {
                assert((k + 31) / 32 == ceil_div(k as int, 32));
            } else {
                assert((k + 255) / 256 == ceil_div(k as int, 256));
            }
        }
        assert(blocks_per_row == ceil_div(k as int, block as int));
        assert(blocks_per_row * bytes == width);
        let row_width: u64 = blocks_per_row * bytes;
        let mut chunks: Vec<Chunk> = Vec::new();
        let mut done: u32 = 0;
        let ghost all = chunks_from(scratch, n as int, k as int, b_type, 0);
        assert(chunks@ + all =~= all);
        while done < n
            invariant
                done <= n,
                0 < k,
                n * k <= u32::MAX,
                scratch == self.scratch,
                width == row_bytes(k as int, b_type),
                width >= 0,
                row_width == width,
                n * width <= usize::MAX,
                n * width <= u64::MAX,
                most == rows_that_fit(scratch, k as int),
                aligned == rows_per_chunk(scratch, k as int, b_type),
                0 < aligned <= most,
                all == chunks@ + chunks_from(scratch, n as int, k as int, b_type, done as int),
            decreases n - done,
        {
            let remaining: u32 = n - done;
            let rows: u32 = if remaining <= most {
                remaining
            } else {
                aligned
            };
            proof {
                lemma_mul_le(rows as int, k as int, n as int, k as int);
                lemma_mul_le(done as int, width, n as int, width);
                lemma_mul_le(done + rows, width, n as int, width);
                lemma_mul_le(rows as int, width, n as int, width);
                assert((done + rows) * width == done * width + rows * width) by (nonlinear_arith);
            }
            let byte_start: u64 = done as u64 * row_width;
            let byte_len: u64 = rows as u64 * row_width;
            let chunk = Chunk {
                first: done,
                rows,
                elements: rows * k,
                byte_start: byte_start as usize,
                byte_end: (byte_start + byte_len) as usize,
            };
            let ghost before = chunks@;
            chunks.push(chunk);
            proof {
                let rest = chunks_from(scratch, n as int, k as int, b_type, done + rows);
                assert(chunks_from(scratch, n as int, k as int, b_type, done as int) == seq![chunk]
                    + rest);
                assert(before + (seq![chunk] + rest) =~= chunks@ + rest);
            }
            done = done + rows;
        }
        assert(all =~= chunks@);
        DequantPlan::Chunks(chunks)
    }

    /// Where each of a batch of unpacked matrices goes, or why they do not
    /// fit: as many ranges as there are matrices.
    pub fn batch_ranges(&self, batch_size: usize, n: u32, k: u32) -> (outcome: Result<
        Vec<(usize, usize)>,
        KernelError,
    >)
        requires
            batch_size <= u32::MAX,
            batch_size * n <= u32::MAX,
            batch_size * n * k <= u32::MAX,
        ensures
            match outcome {
                Ok(ranges) => {
                    &&& batch_fault(self.room() as int, batch_size as int, n as int, k as int) is None
                    &&& ranges@.len() == batch_size
                    &&& forall|i: int|
                        0 <= i < batch_size ==> (#[trigger] ranges@[i]).0 == i * (n * k)
                            && ranges@[i].1 == (i + 1) * (n * k)
                },
                Err(error) => batch_fault(
                    self.room() as int,
                    batch_size as int,
                    n as int,
                    k as int,
                ) == Some(error.text()),
            },
    {
        let mut ranges: Vec<(usize, usize)> = Vec::new();
        if batch_size == 0 {
            return Ok(ranges);
        }
        let total: u32 = batch_size as u32 * n * k;
        if total as u64 > self.scratch as u64 {
            let reason = "batched dequant scratch too small: need ".to_owned().concat(
                &to_decimal(total as u64),
            ).concat(" elements, have ").concat(&to_decimal(self.scratch as u64));
            proof {
                let error = KernelError::Cublas(reason);
                assert(error.text() =~= "cuBLAS error: batched dequant scratch too small: need "@
                    + decimal(total as nat) + " elements, have "@ + decimal(self.scratch as nat))
                    by {
                    reveal_strlit("cuBLAS error: ");
                    reveal_strlit("batched dequant scratch too small: need ");
                    reveal_strlit("cuBLAS error: batched dequant scratch too small: need ");
                    assert("cuBLAS error: "@ + "batched dequant scratch too small: need "@
                        =~= "cuBLAS error: batched dequant scratch too small: need "@);
                }
            }
            return Err(KernelError::Cublas(reason));
        }
        proof {
            assert(n * k <= batch_size * n * k) by (nonlinear_arith)
                requires
                    batch_size >= 1,
                    n >= 0,
                    k >= 0,
            ;
            assert(batch_size * n * k == batch_size * (n * k)) by (nonlinear_arith);
        }
        let each: usize = n as usize * k as usize;
        for i in 0..batch_size
            invariant
                each == n * k,
                batch_size * each <= u32::MAX,
                ranges@.len() == i,
                forall|j: int|
                    0 <= j < i ==> (#[trigger] ranges@[j]).0 == j * (n * k) && ranges@[j].1 == (j
                        + 1) * (n * k),
        {
            proof {
                lemma_mul_le(i as int, each as int, batch_size as int, each as int);
                lemma_mul_le(i + 1, each as int, batch_size as int, each as int);
                assert((i + 1) * each == i * each + each) by (nonlinear_arith);
            }
            let start: usize = i * each;
            let end: usize = start + each;
            ranges.push((start, end));
        }
        Ok(ranges)
    }

    /// The product of rows with rows.
    pub fn matmul_f16(m: u32, n: u32, k: u32) -> (shape: GemmShape)
        requires
            m <= i32::MAX,
            n <= i32::MAX,
            k <= i32::MAX,
        ensures
            shape == row_product(m as int, n as int, k as int),
    {
        GemmShape {
            transposes_first: true,
            m: n as i32,
            n: m as i32,
            k: k as i32,
            lda: k as i32,
            ldb: k as i32,
            ldc: n as i32,
        }
    }

    /// The product of rows with columns.
    pub fn matmul_f16_nt(m: u32, n: u32, k: u32) -> (shape: GemmShape)
        requires
            m <= i32::MAX,
            n <= i32::MAX,
            k <= i32::MAX,
        ensures
            shape == plain_product(m as int, n as int, k as int),
    {
        GemmShape {
            transposes_first: false,
            m: n as i32,
            n: m as i32,
            k: k as i32,
            lda: n as i32,
            ldb: k as i32,
            ldc: n as i32,
        }
    }

    /// The product of rows with the rows of one chunk; the result keeps the
    /// distance of all `n` columns.
    pub fn gemm_chunked(m: u32, n: u32, k: u32, chunk_n: u32) -> (shape: GemmShape)
        requires
            m <= i32::MAX,
            n <= i32::MAX,
            k <= i32::MAX,
            chunk_n <= n,
        ensures
            shape == (GemmShape {
                m: chunk_n as i32,
                ..row_product(m as int, n as int, k as int)
            }),
    {
        GemmShape {
            transposes_first: true,
            m: chunk_n as i32,
            n: m as i32,
            k: k as i32,
            lda: k as i32,
            ldb: k as i32,
            ldc: n as i32,
        }
    }

    /// A batch of products of rows with rows. The weights are the first
    /// operand, so their distance comes first.
    pub fn matmul_f16_strided_batched_with_strides(
        m: u32,
        n: u32,
        k: u32,
        batch_size: u32,
        stride_a: i64,
        stride_b: i64,
        stride_c: i64,
    ) -> (shape: BatchedShape)
        requires
            m <= i32::MAX,
            n <= i32::MAX,
            k <= i32::MAX,
            batch_size <= i32::MAX,
        ensures
            shape == (BatchedShape {
                gemm: row_product(m as int, n as int, k as int),
                batch_size: batch_size as i32,
                stride_a: stride_b,
                stride_b: stride_a,
                stride_c,
            }),
    {
        BatchedShape {
            gemm: Self::matmul_f16(m, n, k),
            batch_size: batch_size as i32,
            stride_a: stride_b,
            stride_b: stride_a,
            stride_c,
        }
    }

    /// A batch of products of rows with rows, one matrix right behind another.
    pub fn matmul_f16_strided_batched(m: u32, n: u32, k: u32, batch_size: u32) -> (shape:
        BatchedShape)
        requires
            m <= i32::MAX,
            n <= i32::MAX,
            k <= i32::MAX,
            batch_size <= i32::MAX,
            m * k <= u32::MAX,
            n * k <= u32::MAX,
            m * n <= u32::MAX,
        ensures
            shape == (BatchedShape {
                gemm: row_product(m as int, n as int, k as int),
                batch_size: batch_size as i32,
                stride_a: (n * k) as i64,
                stride_b: (m * k) as i64,
                stride_c: (m * n) as i64,
            }),
    {
        Self::matmul_f16_strided_batched_with_strides(
            m,
            n,
            k,
            batch_size,
            (m * k) as i64,
            (n * k) as i64,
            (m * n) as i64,
        )
    }

    /// How a product with a part of quantised weights is computed: as with a
    /// whole of that size.
    pub fn matmul_dequant_view(&self, b_type: GgmlType, b_elements: u32, n: u32, k: u32) -> (plan:
        DequantPlan)
        requires
            chunkable(self.room() as int, n, k, b_type),
        ensures
            match plan {
                DequantPlan::Whole { elements } => n * k <= self.room() && elements == b_elements,
                DequantPlan::Chunks(chunks) => n * k > self.room() && chunks@ == chunks_from(
                    self.room() as int,
                    n as int,
                    k as int,
                    b_type,
                    0,
                ),
            },
    {
        self.matmul_dequant(b_type, b_elements, n, k)
    }

    /// How one input is multiplied with each of a batch of quantised
    /// matrices. There is nothing to do for an empty batch.
    pub fn matmul_dequant_strided_batched(&self, batch_size: usize, m: u32, n: u32, k: u32) -> (
    outcome: Result<Option<BatchedPlan>, KernelError>)
        requires
            batchable(batch_size, m, n, k),
        ensures
            self.batched(outcome, batch_size, m, n, k, 0),
    {
        self.matmul_dequant_strided_batched_a_strided(batch_size, m, n, k, 0)
    }

    /// How each of a batch of quantised matrices is multiplied with its own
    /// input; the inputs are `stride_a` elements apart. There is nothing to do
    /// for an empty batch.
    pub fn matmul_dequant_strided_batched_a_strided(
        &self,
        batch_size: usize,
        m: u32,
        n: u32,
        k: u32,
        stride_a: i64,
    ) -> (outcome: Result<Option<BatchedPlan>, KernelError>)
        requires
            batchable(batch_size, m, n, k),
        ensures
            self.batched(outcome, batch_size, m, n, k, stride_a),
    {
        if batch_size == 0 {
            return Ok(None);
        }
        assert(n * k <= u32::MAX) by (nonlinear_arith)
            requires
                batch_size >= 1,
                batch_size * n * k <= u32::MAX,
        ;
        match self.batch_ranges(batch_size, n, k) {
            Err(error) => Err(error),
            Ok(ranges) => Ok(
                Some(
                    BatchedPlan {
                        ranges,
                        products: Self::matmul_f16_strided_batched_with_strides(
                            m,
                            n,
                            k,
                            batch_size as u32,
                            stride_a,
                            (n * k) as i64,
                            (m * n) as i64,
                        ),
                    },
                ),
            ),
        }
    }

    /// What is planned for a batch of products.
    pub open spec fn batched(
        self,
        outcome: Result<Option<BatchedPlan>, KernelError>,
        batch_size: usize,
        m: u32,
        n: u32,
        k: u32,
        stride_a: i64,
    ) -> bool {
        let fault = batch_fault(self.room() as int, batch_size as int, n as int, k as int);
        match outcome {
            Err(error) => fault == Some(error.text()),
            Ok(None) => batch_size == 0,
            Ok(Some(plan)) => {
                &&& batch_size > 0
                &&& fault is None
                &&& plan.ranges@.len() == batch_size
                &&& forall|i: int|
                    0 <= i < batch_size ==> (#[trigger] plan.ranges@[i]).0 == i * (n * k)
                        && plan.ranges@[i].1 == (i + 1) * (n * k)
                &&& plan.products == (BatchedShape {
                    gemm: row_product(m as int, n as int, k as int),
                    batch_size: batch_size as i32,
                    stride_a: (n * k) as i64,
                    stride_b: stride_a,
                    stride_c: (m * n) as i64,
                })
            },
        }
    }
}

} // verus!
