use lg_codec::atlas_gen::{arrange, atlas_size, height_order, layout, place, GlyphData};

fn glyph(character: char, width: u32, height: u32) -> GlyphData {
    GlyphData { character, width, height, ..GlyphData::default() }
}

fn corners(glyphs: &[GlyphData]) -> Vec<(u32, u32)> {
    glyphs.iter().map(|g| (g.start_x, g.start_y)).collect()
}

#[test]
fn a_glyph_without_measures() {
    let g = GlyphData::default();
    assert_eq!(g.character, '\0');
    assert_eq!((g.start_x, g.start_y, g.width, g.height), (0, 0, 0, 0));
    assert_eq!((g.hor_advance, g.ver_advance, g.min_y), (0, 0, 0));
}

#[test]
fn the_tallest_glyph_comes_first() {
    let glyphs = vec![glyph('a', 1, 5), glyph('b', 1, 9), glyph('c', 1, 7), glyph('d', 1, 1)];
    assert_eq!(height_order(&glyphs), vec![1, 2, 0, 3]);
}

#[test]
fn glyphs_of_one_height_keep_their_order() {
    let glyphs = vec![
        glyph('a', 1, 4),
        glyph('b', 2, 8),
        glyph('c', 3, 4),
        glyph('d', 4, 8),
        glyph('e', 5, 4),
        glyph('f', 6, 9),
    ];
    let order = height_order(&glyphs);
    assert_eq!(order, vec![5, 1, 3, 0, 2, 4]);
    let mut pairs: Vec<(usize, GlyphData)> = glyphs.iter().copied().enumerate().collect();
    pairs.sort_by(|a, b| b.1.height.cmp(&a.1.height));
    assert_eq!(order, pairs.iter().map(|p| p.0).collect::<Vec<_>>());
    let arranged = arrange(&glyphs, &order);
    assert_eq!(arranged, pairs.iter().map(|p| p.1).collect::<Vec<_>>());
}

#[test]
fn no_glyphs_no_order() {
    assert_eq!(height_order(&vec![]), vec![]);
    assert_eq!(arrange(&vec![], &vec![]), vec![]);
    assert_eq!(arrange(&vec![glyph('a', 1, 1)], &vec![0, 0]).len(), 2);
}

#[test]
fn the_texture_holds_the_widest_row_and_all_rows() {
    let glyphs = vec![
        glyph('a', 10, 9),
        glyph('b', 20, 8),
        glyph('c', 5, 7),
        glyph('d', 30, 6),
        glyph('e', 1, 5),
    ];
    // Rows of two: 10 + 20, 5 + 30, 1; heights 9, 7, 5.
    assert_eq!(atlas_size(&glyphs, 2), Some((35, 21)));
    // Rows of three: 35, 31; heights 9, 6.
    assert_eq!(atlas_size(&glyphs, 3), Some((35, 15)));
    assert_eq!(atlas_size(&glyphs, 5), Some((66, 9)));
    assert_eq!(atlas_size(&glyphs, 100), Some((66, 9)));
    assert_eq!(atlas_size(&glyphs, 1), Some((30, 35)));
    assert_eq!(atlas_size(&vec![], 3), Some((0, 0)));
}

#[test]
fn a_texture_beyond_32_bits_has_no_size() {
    let wide = vec![glyph('a', u32::MAX, 1), glyph('b', 1, 1)];
    assert_eq!(atlas_size(&wide, 2), None);
    assert_eq!(atlas_size(&wide, 1), Some((u32::MAX, 2)));
    let tall = vec![glyph('a', 1, u32::MAX), glyph('b', 1, 1)];
    assert_eq!(atlas_size(&tall, 1), None);
    assert_eq!(atlas_size(&tall, 2), Some((2, u32::MAX)));
}

#[test]
fn a_glyph_goes_behind_the_last_or_into_a_new_row() {
    let glyphs = vec![
        glyph('a', 10, 9),
        glyph('b', 20, 8),
        glyph('c', 5, 7),
        glyph('d', 30, 6),
        glyph('e', 1, 5),
    ];
    let placed = place(&glyphs, 35).unwrap();
    assert_eq!(corners(&placed), vec![(0, 0), (10, 0), (30, 0), (0, 9), (30, 9)]);
    for (p, g) in placed.iter().zip(&glyphs) {
        assert_eq!((p.character, p.width, p.height), (g.character, g.width, g.height));
    }
    let narrow = place(&glyphs, 30).unwrap();
    assert_eq!(corners(&narrow), vec![(0, 0), (10, 0), (0, 9), (0, 16), (0, 22)]);
    // A glyph wider than the texture still gets a row of its own.
    let tight = place(&glyphs, 4).unwrap();
    assert_eq!(corners(&tight), vec![(0, 0), (0, 9), (0, 17), (0, 24), (0, 30)]);
}

#[test]
fn a_place_beyond_32_bits_is_none() {
    let glyphs = vec![glyph('a', 2, u32::MAX), glyph('b', 2, 1), glyph('c', 2, 1)];
    assert_eq!(place(&glyphs, 2), None);
    // The second row begins at the last height that fits.
    assert_eq!(corners(&place(&glyphs, 4).unwrap()), vec![(0, 0), (2, 0), (0, u32::MAX)]);
    assert_eq!(corners(&place(&glyphs, 6).unwrap()), vec![(0, 0), (2, 0), (4, 0)]);
}

#[test]
fn the_whole_layout() {
    let glyphs = vec![
        glyph('a', 10, 9),
        glyph('b', 20, 8),
        glyph('c', 5, 7),
        glyph('d', 30, 6),
        glyph('e', 1, 5),
    ];
    let l = layout(&glyphs, 2).unwrap();
    assert_eq!((l.width, l.height), (35, 21));
    assert_eq!(corners(&l.glyphs), vec![(0, 0), (10, 0), (30, 0), (0, 9), (30, 9)]);
    assert!(layout(&vec![glyph('a', u32::MAX, 1), glyph('b', 1, 1)], 2).is_none());
    let empty = layout(&vec![], 1).unwrap();
    assert_eq!((empty.width, empty.height, empty.glyphs.len()), (0, 0, 0));
}
