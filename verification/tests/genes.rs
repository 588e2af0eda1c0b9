use cadsd::genes::bubble_genes;
use cadsd::genes::gene_count;
use cadsd::genes::part_span;
use cadsd::genes::segment_genes;

#[test]
fn gene_count_covers_header_segments_and_bubbles() {
    assert_eq!(gene_count(1, 0), 3);
    assert_eq!(gene_count(20, 0), 41);
    assert_eq!(gene_count(30, 2), 3 + 58 + 6);
}

#[test]
fn a_laid_out_genome_reads_back_completely() {
    let n_segments = 4;
    let n_bubbles = 2;
    let genome: Vec<u32> = (0..gene_count(n_segments, n_bubbles) as u32).collect();
    let bubbles = bubble_genes(&genome, n_bubbles);
    assert_eq!(bubbles, vec![(3, 4, 5), (6, 7, 8)]);
    let (xs, ys) = segment_genes(&genome, n_bubbles);
    assert_eq!(xs, vec![9, 11, 13]);
    assert_eq!(ys, vec![10, 12, 14]);
}

#[test]
fn short_genomes_read_only_whole_groups() {
    let genome: Vec<f64> = vec![0.1, 0.2, 0.3, 0.4, 0.5, 0.6, 0.7, 0.8];
    let bubbles = bubble_genes(&genome, 3);
    assert_eq!(bubbles, vec![(0.4, 0.5, 0.6)]);
    let (xs, ys) = segment_genes(&genome, 1);
    assert_eq!(xs, vec![0.7]);
    assert_eq!(ys, vec![0.8]);
    let (xs, ys) = segment_genes(&genome, 2);
    assert!(xs.is_empty());
    assert!(ys.is_empty());
    let empty: Vec<f64> = Vec::new();
    assert!(bubble_genes(&empty, 2).is_empty());
}

#[test]
fn an_odd_gene_after_the_pairs_is_left_out() {
    let genome: Vec<i64> = vec![0, 0, 0, 1, 2, 3, 4, 5];
    let (xs, ys) = segment_genes(&genome, 0);
    assert_eq!(xs, vec![1, 3]);
    assert_eq!(ys, vec![2, 4]);
}

#[test]
fn part_span_starts_inside_and_stops_before_the_end() {
    assert_eq!(part_span(10, 13, 4), (3, 7));
    assert_eq!(part_span(10, 3, 9), (3, 5));
    assert_eq!(part_span(10, 9, 100), (9, 9));
    assert_eq!(part_span(1, 5, 5), (0, 0));
    for r1 in 0..30 {
        for r2 in 0..30 {
            let (start, end) = part_span(7, r1, r2);
            assert!(start <= end && end < 7);
        }
    }
}
