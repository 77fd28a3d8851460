use pattern_texture::texture::{default_palette, generate_pattern, uv_debug_texture, PatternError, TEXTURE_SIZE};

/// The palette rotated right by `k` color slots of 4 bytes each.
fn rotated_colors(palette: &[u8], k: usize) -> Vec<u8> {
    let mut v = palette.to_vec();
    for _ in 0..k {
        v.rotate_right(4);
    }
    v
}

#[test]
fn repeated_calls_are_identical() {
    let palette = default_palette();
    let first = generate_pattern(&palette, 8).unwrap();
    let second = generate_pattern(&palette, 8).unwrap();
    assert_eq!(first, second);
    let t1 = uv_debug_texture();
    let t2 = uv_debug_texture();
    assert_eq!(t1.data, t2.data);
}

#[test]
fn output_length_is_n_squared_times_4() {
    let palette = default_palette();
    let data = generate_pattern(&palette, 8).unwrap();
    assert_eq!(data.len(), 8 * 8 * 4);

    let small: Vec<u8> = vec![1, 2, 3, 4, 5, 6, 7, 8, 9, 10, 11, 12];
    let data = generate_pattern(&small, 3).unwrap();
    assert_eq!(data.len(), 3 * 3 * 4);
}

#[test]
fn first_row_equals_palette() {
    let palette = default_palette();
    let data = generate_pattern(&palette, 8).unwrap();
    assert_eq!(&data[0..32], &palette[..]);
}

#[test]
fn each_row_is_palette_rotated() {
    let palette = default_palette();
    let data = generate_pattern(&palette, 8).unwrap();
    for k in 0..8 {
        let expected = rotated_colors(&palette, k);
        assert_eq!(&data[k * 32..(k + 1) * 32], &expected[..], "row {}", k);
    }
}

#[test]
fn every_alpha_byte_is_255() {
    let palette = default_palette();
    let data = generate_pattern(&palette, 8).unwrap();
    for pixel in data.chunks(4) {
        assert_eq!(pixel[3], 255);
    }
}

#[test]
fn concrete_rows_of_the_fixed_palette() {
    let palette = default_palette();
    assert_eq!(
        palette,
        vec![
            255, 102, 159, 255, 255, 159, 102, 255, 236, 255, 102, 255, 121, 255, 102, 255, 102,
            255, 198, 255, 102, 198, 255, 255, 121, 102, 255, 255, 236, 102, 255, 255,
        ]
    );
    let data = generate_pattern(&palette, 8).unwrap();
    // Row 1: the last color (c7) first, then c0..c6.
    let row1: Vec<u8> = vec![
        236, 102, 255, 255, 255, 102, 159, 255, 255, 159, 102, 255, 236, 255, 102, 255, 121, 255,
        102, 255, 102, 255, 198, 255, 102, 198, 255, 255, 121, 102, 255, 255,
    ];
    assert_eq!(&data[32..64], &row1[..]);
    // Row 7: c1..c7, then c0 last.
    let row7: Vec<u8> = vec![
        255, 159, 102, 255, 236, 255, 102, 255, 121, 255, 102, 255, 102, 255, 198, 255, 102, 198,
        255, 255, 121, 102, 255, 255, 236, 102, 255, 255, 255, 102, 159, 255,
    ];
    assert_eq!(&data[7 * 32..8 * 32], &row7[..]);
}

#[test]
fn wrong_palette_length_is_rejected() {
    let palette = default_palette();
    assert_eq!(generate_pattern(&palette, 7), Err(PatternError::SizeMismatch));
    let short: Vec<u8> = vec![0; 31];
    assert_eq!(generate_pattern(&short, 8), Err(PatternError::SizeMismatch));
    let empty: Vec<u8> = Vec::new();
    assert_eq!(generate_pattern(&empty, 1), Err(PatternError::SizeMismatch));
}

#[test]
fn empty_bitmap_from_empty_palette() {
    let empty: Vec<u8> = Vec::new();
    let data = generate_pattern(&empty, 0).unwrap();
    assert!(data.is_empty());
}

#[test]
fn debug_texture_metadata_and_bytes() {
    let t = uv_debug_texture();
    assert_eq!(t.width, 8);
    assert_eq!(t.height, 8);
    assert_eq!(t.data.len(), 256);
    let palette = default_palette();
    assert_eq!(palette.len(), TEXTURE_SIZE * 4);
    let expected = generate_pattern(&palette, TEXTURE_SIZE).unwrap();
    assert_eq!(t.data, expected);
}
