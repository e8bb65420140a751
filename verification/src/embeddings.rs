//! Embedding tables for text tokens and audio codes, stored row after row in
//! one flat vector. The element type is left open: the runtime stores 32-bit
//! floats read from `embed_tokens.bin` and `audio_embedding.bin`.

use vstd::prelude::*;

use crate::constants::NUM_CODEBOOKS;
use crate::error::{ErrorKind, LFM2Error};
use crate::text::{concat2, decimal, owned, push_decimal};

verus! {

/// A table of `rows` embeddings of `hidden_size` values each.
pub struct EmbeddingTable<T> {
    pub weight: Vec<T>,
    pub rows: usize,
    pub hidden_size: usize,
}

/// Row `r` of a flat table whose rows have `h` values.
pub open spec fn table_row<T>(weight: Seq<T>, h: int, r: int) -> Seq<T> {
    weight.subrange(r * h, r * h + h)
}

/// The rows of the given ids, one after the other.
pub open spec fn gathered_rows<T>(weight: Seq<T>, h: int, ids: Seq<u32>) -> Seq<T>
    decreases ids.len(),
{
    if ids.len() == 0 {
        Seq::empty()
    } else {
        gathered_rows(weight, h, ids.drop_last()) + table_row(weight, h, ids.last() as int)
    }
}

proof fn lemma_row_in_bounds(rows: int, h: int, r: int)
    requires
        0 <= r < rows,
        0 <= h,
    ensures
        0 <= r * h,
        r * h + h <= rows * h,
{
    vstd::arithmetic::mul::lemma_mul_nonnegative(r, h);
    vstd::arithmetic::mul::lemma_mul_inequality(r + 1, rows, h);
    vstd::arithmetic::mul::lemma_mul_is_distributive_add_other_way(h, r, 1);
}

proof fn lemma_gathered_len<T>(weight: Seq<T>, rows: int, h: int, ids: Seq<u32>)
    requires
        weight.len() == rows * h,
        0 <= h,
        forall|i: int| 0 <= i < ids.len() ==> (#[trigger] ids[i]) < rows,
    ensures
        gathered_rows(weight, h, ids).len() == ids.len() * h,
    decreases ids.len(),
{
    if ids.len() > 0 {
        lemma_gathered_len(weight, rows, h, ids.drop_last());
        lemma_row_in_bounds(rows, h, ids.last() as int);
        vstd::arithmetic::mul::lemma_mul_is_distributive_add_other_way(h, ids.len() - 1, 1);
    }
}

impl<T: Copy> EmbeddingTable<T> {
    /// The weights hold exactly `rows` rows.
    pub open spec fn wf(&self) -> bool {
        self.weight@.len() == self.rows * self.hidden_size
    }

    /// Row `r` of the table.
    pub open spec fn row(&self, r: int) -> Seq<T> {
        table_row(self.weight@, self.hidden_size as int, r)
    }

    /// The row of an id.
    pub fn lookup(&self, id: usize) -> (r: &[T])
        requires
            self.wf(),
            id < self.rows,
        ensures
            r@ == self.row(id as int),
    {
        proof {
            lemma_row_in_bounds(self.rows as int, self.hidden_size as int, id as int);
        }
        let total = self.weight.len();
        assert(id * self.hidden_size + self.hidden_size <= total);
        let start = id * self.hidden_size;
        vstd::slice::slice_subrange(self.weight.as_slice(), start, start + self.hidden_size)
    }

    /// The rows of a sequence of ids, one after the other.
    pub fn embed_sequence(&self, ids: &[u32]) -> (r: Vec<T>)
        requires
            self.wf(),
            forall|i: int| 0 <= i < ids@.len() ==> (#[trigger] ids@[i]) < self.rows,
        ensures
            r@ == gathered_rows(self.weight@, self.hidden_size as int, ids@),
            r@.len() == ids@.len() * self.hidden_size,
    {
        let h = self.hidden_size;
        let mut result: Vec<T> = Vec::new();
        let mut k: usize = 0;
        while k < ids.len()
            invariant
                self.wf(),
                h == self.hidden_size,
                forall|i: int| 0 <= i < ids@.len() ==> (#[trigger] ids@[i]) < self.rows,
                k <= ids@.len(),
                result@ == gathered_rows(self.weight@, h as int, ids@.subrange(0, k as int)),
            decreases ids@.len() - k,
        {
            let row = self.lookup(ids[k] as usize);
            proof {
                lemma_row_in_bounds(self.rows as int, h as int, ids@[k as int] as int);
            }
            let ghost before = result@;
            let mut j: usize = 0;
            while j < h
                invariant
                    h == self.hidden_size,
                    row@.len() == h,
                    j <= h,
                    result@ == before + row@.subrange(0, j as int),
                decreases h - j,
            {
                result.push(row[j]);
                proof {
                    assert(row@.subrange(0, j + 1) =~= row@.subrange(0, j as int).push(row@[j as int]));
                }
                j = j + 1;
            }
            proof {
                assert(row@.subrange(0, h as int) =~= row@);
                assert(ids@.subrange(0, k + 1).drop_last() =~= ids@.subrange(0, k as int));
            }
            k = k + 1;
        }
        proof {
            assert(ids@.subrange(0, ids@.len() as int) =~= ids@);
            lemma_gathered_len(self.weight@, self.rows as int, h as int, ids@);
        }
        result
    }

    pub fn hidden_size(&self) -> (n: usize)
        ensures
            n == self.hidden_size,
    {
        self.hidden_size
    }

    pub fn vocab_size(&self) -> (n: usize)
        ensures
            n == self.rows,
    {
        self.rows
    }
}

/// Text token embeddings: one row per token id.
pub type EmbedTokens<T> = EmbeddingTable<T>;

/// Row of a code of a codebook in an audio embedding table with
/// `codebook_vocab` codes per codebook.
pub open spec fn audio_code_row(codebook: int, codebook_vocab: int, code: int) -> int {
    codebook * codebook_vocab + code
}

/// The rows a frame of codes selects, codebook by codebook: the runtime
/// averages them into the frame's embedding.
pub fn audio_code_rows(codes: &[u16; 8], codebook_vocab: usize) -> (rows: Vec<usize>)
    requires
        (NUM_CODEBOOKS as int) * (codebook_vocab as int) <= usize::MAX,
        forall|i: int| 0 <= i < 8 ==> (#[trigger] codes@[i]) < codebook_vocab,
    ensures
        rows@.len() == 8,
        forall|i: int|
            0 <= i < 8 ==> (#[trigger] rows@[i]) as int == audio_code_row(
                i,
                codebook_vocab as int,
                codes@[i] as int,
            ),
        forall|i: int| 0 <= i < 8 ==> (#[trigger] rows@[i]) < 8 * codebook_vocab,
{
    let mut rows: Vec<usize> = Vec::new();
    let mut i: usize = 0;
    while i < 8
        invariant
            (NUM_CODEBOOKS as int) * (codebook_vocab as int) <= usize::MAX,
            forall|j: int| 0 <= j < 8 ==> (#[trigger] codes@[j]) < codebook_vocab,
            i <= 8,
            rows@.len() == i,
            forall|j: int|
                0 <= j < i ==> (#[trigger] rows@[j]) as int == audio_code_row(
                    j,
                    codebook_vocab as int,
                    codes@[j] as int,
                ),
            forall|j: int| 0 <= j < i ==> (#[trigger] rows@[j]) < 8 * codebook_vocab,
        decreases 8 - i,
    {
        proof {
            vstd::arithmetic::mul::lemma_mul_inequality(i as int + 1, 8, codebook_vocab as int);
            vstd::arithmetic::mul::lemma_mul_is_distributive_add_other_way(
                codebook_vocab as int,
                i as int,
                1,
            );
        }
        let row = i * codebook_vocab + codes[i] as usize;
        rows.push(row);
        i = i + 1;
    }
    rows
}

/// Bytes a table of `rows` rows of `hidden_size` 32-bit values occupies.
pub open spec fn table_bytes(rows: nat, hidden_size: nat) -> nat {
    rows * hidden_size * 4
}

/// Check the size of an embedding file against its metadata: the file must
/// hold exactly one 32-bit value per entry of the table.
pub fn check_table_bytes(file_name: &str, rows: usize, hidden_size: usize, byte_len: usize) -> (r: Result<(), LFM2Error>)
    requires
        rows * hidden_size * 4 <= usize::MAX,
    ensures
        byte_len == table_bytes(rows as nat, hidden_size as nat) ==> r is Ok,
        byte_len != table_bytes(rows as nat, hidden_size as nat) ==> (r matches Err(e) && e@ == (
            ErrorKind::Embedding,
            file_name@ + " size mismatch: expected "@ + decimal(
                table_bytes(rows as nat, hidden_size as nat),
            ) + " bytes, got "@ + decimal(byte_len as nat),
        )),
{
    proof {
        vstd::arithmetic::mul::lemma_mul_nonnegative(rows as int, hidden_size as int);
    }
    let expected = rows * hidden_size * 4;
    if byte_len == expected {
        return Ok(());
    }
    let mut msg = concat2(file_name, " size mismatch: expected ");
    push_decimal(&mut msg, expected);
    msg.append(" bytes, got ");
    push_decimal(&mut msg, byte_len);
    proof {
        reveal_strlit(" bytes, got ");
    }
    Err(LFM2Error::Embedding(msg))
}

/// Each codebook owns its own block of rows: code `c` of codebook `i` is
/// row `i * vocab + c`, inside the block `i * vocab .. (i + 1) * vocab`, so
/// the same code in two codebooks selects two different rows.
pub proof fn lemma_codebook_blocks(i: int, j: int, vocab: int, a: int, b: int)
    requires
        0 <= i,
        0 <= j,
        0 <= a < vocab,
        0 <= b < vocab,
    ensures
        i * vocab <= audio_code_row(i, vocab, a) < (i + 1) * vocab,
        i != j ==> audio_code_row(i, vocab, a) != audio_code_row(j, vocab, b),
        audio_code_row(i, vocab, a) == audio_code_row(i, vocab, b) ==> a == b,
{
    assert((i + 1) * vocab == i * vocab + vocab) by (nonlinear_arith);
    assert((j + 1) * vocab == j * vocab + vocab) by (nonlinear_arith);
    if i < j {
        assert((i + 1) * vocab <= j * vocab) by (nonlinear_arith)
            requires
                i < j,
                vocab > 0,
        ;
    } else if j < i {
        assert((j + 1) * vocab <= i * vocab) by (nonlinear_arith)
            requires
                j < i,
                vocab > 0,
        ;
    }
}

/// Row `r` of a table holds the `h` values starting at `r * h`.
pub proof fn lemma_table_row_values<T>(weight: Seq<T>, h: int, r: int, k: int)
    requires
        0 <= r,
        0 <= k < h,
        r * h + h <= weight.len(),
    ensures
        table_row(weight, h, r).len() == h,
        table_row(weight, h, r)[k] == weight[r * h + k],
{
}

} // verus!
