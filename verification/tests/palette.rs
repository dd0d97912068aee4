use pixelbot::palette::{color_distance, decode_hex, ColorId, Palette, MAX_COLOR_ID};

#[test]
fn standard_palette_has_25_colors_in_order() {
    let palette = Palette::new();
    assert_eq!(palette.len(), 25);
    assert_eq!(palette.len(), MAX_COLOR_ID);
    assert_eq!(palette.get(0), Some((255, 255, 255)));
    assert_eq!(palette.get(1), Some((194, 194, 194)));
    assert_eq!(palette.get(4), Some((0, 0, 0)));
    assert_eq!(palette.get(5), Some((0x3A, 0xAF, 0xFF)));
    assert_eq!(palette.get(12), Some((0xFF, 0x21, 0x8B)));
    assert_eq!(palette.get(24), Some((0xD3, 0x83, 0x01)));
    assert_eq!(palette.get(25), None);
}

#[test]
fn hex_codes_decode_to_channels() {
    assert_eq!(decode_hex(0x000000), (0, 0, 0));
    assert_eq!(decode_hex(0xFFFFFF), (255, 255, 255));
    assert_eq!(decode_hex(0x074BF3), (7, 75, 243));
    assert_eq!(decode_hex(0xD38301), (211, 131, 1));
}

#[test]
fn distance_is_squared_euclidean() {
    assert_eq!(color_distance((0, 0, 0), (0, 0, 0)), 0);
    assert_eq!(color_distance((0, 0, 0), (255, 255, 255)), 195075);
    assert_eq!(color_distance((255, 255, 255), (0, 0, 0)), 195075);
    assert_eq!(color_distance((10, 20, 30), (13, 16, 42)), 9 + 16 + 144);
}

#[test]
fn every_palette_color_resolves_to_itself_exactly() {
    let palette = Palette::new();
    for index in 0..palette.len() {
        let (r, g, b) = palette.get(index).unwrap();
        assert_eq!(
            palette.resolve_color_id(r, g, b),
            ColorId { id: index as u8, exact: true }
        );
    }
}

#[test]
fn absent_colors_resolve_to_the_nearest_entry() {
    let palette = Palette::new();
    assert_eq!(palette.resolve_color_id(254, 254, 254), ColorId { id: 0, exact: false });
    assert_eq!(palette.resolve_color_id(10, 10, 10), ColorId { id: 4, exact: false });
    assert_eq!(palette.resolve_color_id(200, 0, 0), ColorId { id: 11, exact: false });
    assert_eq!(palette.resolve_color_id(0, 255, 0), ColorId { id: 21, exact: false });
    assert_eq!(palette.resolve_color_id(0, 0, 255), ColorId { id: 8, exact: false });
    assert_eq!(palette.resolve_color_id(128, 128, 128), ColorId { id: 2, exact: false });
}

#[test]
fn ties_go_to_the_earliest_entry() {
    let palette = Palette::new();
    assert_eq!(color_distance((58, 175, 255), (15, 165, 190)), 6174);
    assert_eq!(color_distance((74, 118, 168), (15, 165, 190)), 6174);
    assert_eq!(palette.resolve_color_id(15, 165, 190), ColorId { id: 5, exact: false });
    assert_eq!(palette.resolve_color_id(19, 50, 115), ColorId { id: 3, exact: false });
    assert_eq!(palette.resolve_color_id(43, 40, 230), ColorId { id: 8, exact: false });
    assert_eq!(palette.resolve_color_id(51, 5, 205), ColorId { id: 9, exact: false });

    let two = Palette::from_colors(vec![(10, 0, 0), (0, 10, 0), (0, 0, 10)]).unwrap();
    assert_eq!(two.resolve_color_id(0, 0, 0), ColorId { id: 0, exact: false });
    assert_eq!(two.resolve_color_id(0, 6, 5), ColorId { id: 1, exact: false });
}

#[test]
fn duplicates_resolve_to_the_lowest_index() {
    let palette =
        Palette::from_colors(vec![(1, 2, 3), (9, 9, 9), (1, 2, 3), (9, 9, 9), (4, 4, 4)]).unwrap();
    assert_eq!(palette.resolve_color_id(1, 2, 3), ColorId { id: 0, exact: true });
    assert_eq!(palette.resolve_color_id(9, 9, 9), ColorId { id: 1, exact: true });
    assert_eq!(palette.resolve_color_id(4, 4, 4), ColorId { id: 4, exact: true });
    assert_eq!(palette.resolve_color_id(9, 9, 10), ColorId { id: 1, exact: false });
}

#[test]
fn an_exact_match_late_in_the_palette_wins_over_a_near_miss() {
    let palette = Palette::from_colors(vec![(100, 100, 101), (0, 0, 0), (100, 100, 100)]).unwrap();
    assert_eq!(palette.resolve_color_id(100, 100, 100), ColorId { id: 2, exact: true });
}

#[test]
fn palettes_hold_between_1_and_256_colors() {
    assert!(Palette::from_colors(vec![]).is_none());
    assert!(Palette::from_colors(vec![(0, 0, 0)]).is_some());
    let full: Vec<(u8, u8, u8)> = (0..256).map(|i| (i as u8, 0, 0)).collect();
    let palette = Palette::from_colors(full.clone()).unwrap();
    assert_eq!(palette.len(), 256);
    assert_eq!(palette.resolve_color_id(255, 0, 0), ColorId { id: 255, exact: true });
    let mut over = full;
    over.push((0, 0, 1));
    assert!(Palette::from_colors(over).is_none());
}
