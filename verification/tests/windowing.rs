use factory_discovery::windows::BlockWindow;
use factory_discovery::windows::DEFAULT_WINDOW_WIDTH;
use factory_discovery::windows::block_windows;

fn window(from_block: u64, to_block: u64) -> BlockWindow {
    BlockWindow { from_block, to_block }
}

#[test]
fn default_width_is_one_hundred_thousand_blocks() {
    assert_eq!(DEFAULT_WINDOW_WIDTH, 100000);
}

#[test]
fn windows_tile_a_clipped_range() {
    // Height 250,000 in windows of 100,000: the last window ends exactly
    // at the head.
    let windows = block_windows(250000, 100000);
    assert_eq!(
        windows,
        vec![window(0, 100000), window(100000, 200000), window(200000, 250000)]
    );
}

#[test]
fn a_short_range_gives_one_window() {
    assert_eq!(block_windows(50, 100000), vec![window(0, 50)]);
}

#[test]
fn an_exact_multiple_ends_with_an_empty_window() {
    assert_eq!(
        block_windows(200000, 100000),
        vec![window(0, 100000), window(100000, 200000), window(200000, 200000)]
    );
}

#[test]
fn a_zero_height_chain_gives_a_single_point_window() {
    assert_eq!(block_windows(0, 100000), vec![window(0, 0)]);
}

#[test]
fn windows_share_their_boundaries() {
    let windows = block_windows(1234567, 1000);
    assert_eq!(windows.first().unwrap().from_block, 0);
    assert_eq!(windows.last().unwrap().to_block, 1234567);
    for pair in windows.windows(2) {
        assert_eq!(pair[0].to_block, pair[1].from_block);
        assert!(pair[0].to_block - pair[0].from_block <= 1000);
    }
}
