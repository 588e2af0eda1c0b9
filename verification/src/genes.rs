//! The gene layout of the Kigali genome, and the index arithmetic of the
//! crossover operators.
//!
//! A Kigali genome starts with three header genes (length, bell size, bell
//! power), then three genes per bubble (position, width, height), then one
//! `(x, y)` pair per inner segment boundary.

use vstd::prelude::*;

verus! {

/// Number of header genes before the bubble genes.
pub const HEADER_GENES: usize = 3;

/// Number of genes that describe one bubble.
pub const GENES_PER_BUBBLE: usize = 3;

/// Genes of a genome with `n_segments` segments and `n_bubbles` bubbles.
pub open spec fn gene_count_spec(n_segments: int, n_bubbles: int) -> int {
    3 + 2 * (n_segments - 1) + 3 * n_bubbles
}

/// Position of the first segment gene, after the header and the bubble genes.
pub open spec fn segment_offset(n_bubbles: int) -> int {
    3 + 3 * n_bubbles
}

/// How many bubble triples fit completely in a genome of `len` genes.
pub open spec fn bubble_slots(len: int) -> int {
    if len < 3 {
        0
    } else {
        (len - 3) / 3
    }
}

/// How many bubbles are read from a genome of `len` genes that should hold `n_bubbles`.
pub open spec fn bubbles_read(len: int, n_bubbles: int) -> int {
    if n_bubbles <= bubble_slots(len) {
        n_bubbles
    } else {
        bubble_slots(len)
    }
}

/// How many `(x, y)` segment pairs are read from a genome of `len` genes
/// whose segment genes start at `offset`.
pub open spec fn pairs_read(len: int, offset: int) -> int {
    if len > offset {
        (len - offset) / 2
    } else {
        0
    }
}

/// The number of genes of a genome with `n_segments` segments and
/// `n_bubbles` bubbles.
pub fn gene_count(n_segments: usize, n_bubbles: usize) -> (r: usize)
    requires
        n_segments >= 1,
        gene_count_spec(n_segments as int, n_bubbles as int) <= usize::MAX,
    ensures
        r == gene_count_spec(n_segments as int, n_bubbles as int),
{
    HEADER_GENES + 2 * (n_segments - 1) + n_bubbles * GENES_PER_BUBBLE
}

/// The bubble genes: for each bubble `i` below `n_bubbles` whose three genes
/// lie inside the genome, the triple at `3 + 3 * i`.
pub fn bubble_genes<T: Copy>(genome: &Vec<T>, n_bubbles: usize) -> (r: Vec<(T, T, T)>)
    requires
        segment_offset(n_bubbles as int) <= usize::MAX,
    ensures
        r@.len() == bubbles_read(genome@.len() as int, n_bubbles as int),
        forall|k: int|
            0 <= k < r@.len() ==> #[trigger] r@[k] == (
                genome@[3 + 3 * k],
                genome@[4 + 3 * k],
                genome@[5 + 3 * k],
            ),
{
    let len = genome.len();
    let mut out: Vec<(T, T, T)> = Vec::new();
    let mut i: usize = 0;
    while i < n_bubbles
        invariant
            len == genome@.len(),
            i <= n_bubbles,
            3 + 3 * n_bubbles <= usize::MAX,
            out@.len() == bubbles_read(len as int, i as int),
            forall|k: int|
                0 <= k < out@.len() ==> #[trigger] out@[k] == (
                    genome@[3 + 3 * k],
                    genome@[4 + 3 * k],
                    genome@[5 + 3 * k],
                ),
        decreases n_bubbles - i,
    {
        let idx = HEADER_GENES + i * GENES_PER_BUBBLE;
        if idx + 2 < len {
            assert(i < bubble_slots(len as int));
            out.push((genome[idx], genome[idx + 1], genome[idx + 2]));
        } else {
            assert(i >= bubble_slots(len as int));
        }
        i += 1;
    }
    out
}

/// The segment genes, read as `(x, y)` pairs from `3 + 3 * n_bubbles` on
/// while a whole pair remains: the `x` genes and the `y` genes.
pub fn segment_genes<T: Copy>(genome: &Vec<T>, n_bubbles: usize) -> (r: (Vec<T>, Vec<T>))
    requires
        segment_offset(n_bubbles as int) <= usize::MAX,
    ensures
        r.0@.len() == pairs_read(genome@.len() as int, segment_offset(n_bubbles as int)),
        r.1@.len() == r.0@.len(),
        forall|k: int|
            0 <= k < r.0@.len() ==> #[trigger] r.0@[k] == genome@[segment_offset(
                n_bubbles as int,
            ) + 2 * k],
        forall|k: int|
            0 <= k < r.1@.len() ==> #[trigger] r.1@[k] == genome@[segment_offset(
                n_bubbles as int,
            ) + 2 * k + 1],
{
    let len = genome.len();
    let offset = HEADER_GENES + n_bubbles * GENES_PER_BUBBLE;
    let ghost off = offset as int;
    let mut xs: Vec<T> = Vec::new();
    let mut ys: Vec<T> = Vec::new();
    let mut i = offset;
    while i < len && len - i >= 2
        invariant
            len == genome@.len(),
            off == segment_offset(n_bubbles as int),
            i == off + 2 * xs@.len(),
            ys@.len() == xs@.len(),
            xs@.len() <= pairs_read(len as int, off),
            forall|k: int| 0 <= k < xs@.len() ==> #[trigger] xs@[k] == genome@[off + 2 * k],
            forall|k: int| 0 <= k < ys@.len() ==> #[trigger] ys@[k] == genome@[off + 2 * k + 1],
        decreases len - i,
    {
        xs.push(genome[i]);
        ys.push(genome[i + 1]);
        i += 2;
    }
    (xs, ys)
}

/// A genome laid out for `n_segments` segments and `n_bubbles` bubbles
/// yields, when read back, all `n_bubbles` bubbles and `n_segments - 1`
/// segment pairs.
pub proof fn lemma_layout_read_back(n_segments: int, n_bubbles: int)
    requires
        n_segments >= 1,
        n_bubbles >= 0,
    ensures
        bubbles_read(gene_count_spec(n_segments, n_bubbles), n_bubbles) == n_bubbles,
        pairs_read(gene_count_spec(n_segments, n_bubbles), segment_offset(n_bubbles))
            == n_segments - 1,
{
    let len = gene_count_spec(n_segments, n_bubbles);
    assert(bubble_slots(len) >= n_bubbles) by {
        assert(len - 3 == 3 * n_bubbles + 2 * (n_segments - 1));
        assert((3 * n_bubbles + 2 * (n_segments - 1)) / 3 >= n_bubbles);
    }
    assert(len - segment_offset(n_bubbles) == 2 * (n_segments - 1));
}

/// The span `start..end` of genes that the part-swap and part-average
/// crossovers take from the second parent, drawn from the random numbers
/// `r1` and `r2`.
pub open spec fn part_span_spec(len: int, r1: int, r2: int) -> (int, int) {
    let start = r1 % len;
    let end = start + r2 % (len - start);
    (start, if end < len { end } else { len })
}

/// The span of genes a part crossover takes from the second parent of a
/// genome of `len` genes: it starts at `r1 % len` and reaches
/// `r2 % (len - start)` genes further, capped at the genome's end.
pub fn part_span(len: usize, r1: usize, r2: usize) -> (r: (usize, usize))
    requires
        len > 0,
    ensures
        (r.0 as int, r.1 as int) == part_span_spec(len as int, r1 as int, r2 as int),
        r.0 <= r.1,
        r.1 < len,
{
    let start = r1 % len;
    let end = start + r2 % (len - start);
    let end = if end < len { end } else { len };
    (start, end)
}

} // verus!
