use embedded_nineslice::tiling::{tile_spans, Span};

fn span(start: u32, length: u32) -> Span {
    Span { start, length }
}

#[test]
fn whole_blocks_cover_a_multiple() {
    assert_eq!(tile_spans(32, 8), vec![span(0, 8), span(8, 8), span(16, 8), span(24, 8)]);
    assert_eq!(tile_spans(16, 8), vec![span(0, 8), span(8, 8)]);
}

#[test]
fn the_last_tile_is_cut_to_what_is_left() {
    assert_eq!(tile_spans(10, 4), vec![span(0, 4), span(4, 4), span(8, 2)]);
    assert_eq!(tile_spans(9, 8), vec![span(0, 8), span(8, 1)]);
}

#[test]
fn a_destination_shorter_than_the_block_takes_its_start() {
    assert_eq!(tile_spans(3, 8), vec![span(0, 3)]);
    assert_eq!(tile_spans(1, u32::MAX), vec![span(0, 1)]);
}

#[test]
fn a_destination_as_long_as_the_block_takes_it_once() {
    assert_eq!(tile_spans(8, 8), vec![span(0, 8)]);
    assert_eq!(tile_spans(u32::MAX, u32::MAX), vec![span(0, u32::MAX)]);
}

#[test]
fn an_empty_destination_takes_no_tile() {
    assert_eq!(tile_spans(0, 8), Vec::<Span>::new());
    assert_eq!(tile_spans(0, 1), Vec::<Span>::new());
    assert_eq!(tile_spans(0, 0), Vec::<Span>::new());
}

#[test]
fn an_empty_block_gives_no_tile_and_ends() {
    assert_eq!(tile_spans(32, 0), Vec::<Span>::new());
    assert_eq!(tile_spans(u32::MAX, 0), Vec::<Span>::new());
}

#[test]
fn tiles_near_the_largest_length() {
    assert_eq!(
        tile_spans(u32::MAX, u32::MAX - 1),
        vec![span(0, u32::MAX - 1), span(u32::MAX - 1, 1)]
    );
    assert_eq!(
        tile_spans(u32::MAX, 0x8000_0000),
        vec![span(0, 0x8000_0000), span(0x8000_0000, 0x7fff_ffff)]
    );
}

#[test]
fn lengths_add_up_and_the_count_is_the_quotient_rounded_up() {
    for length in 0u32..60 {
        for block in 1u32..20 {
            let spans = tile_spans(length, block);
            let total: u32 = spans.iter().map(|s| s.length).sum();
            assert_eq!(total, length);
            assert_eq!(spans.len() as u32, (length + block - 1) / block);
            let mut next = 0;
            for s in spans.iter() {
                assert_eq!(s.start, next);
                assert!(0 < s.length && s.length <= block);
                next = s.start + s.length;
            }
            for (i, s) in spans.iter().enumerate() {
                assert_eq!(s.start, i as u32 * block);
                if i + 1 < spans.len() {
                    assert_eq!(s.length, block);
                }
            }
        }
    }
}
