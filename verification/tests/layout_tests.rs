use hushpaperlib::layout::{qrcode_scaled, split_to_max};
use qrcode::types::Color;
use qrcode::QrCode;

#[test]
fn split_keeps_whole_blocks_per_line() {
    let rows = split_to_max("abcdefgh", 3, 3);
    assert_eq!(rows, vec!["abc", "def", "gh"]);
}

#[test]
fn split_spaces_blocks_inside_a_line() {
    let rows = split_to_max("abcdef", 6, 2);
    assert_eq!(rows, vec!["ab cd ef", ""]);
}

#[test]
fn split_of_exact_multiple_has_trailing_empty_row() {
    let rows = split_to_max("abcd", 2, 2);
    assert_eq!(rows, vec!["ab", "cd", ""]);
    let rows = split_to_max("", 5, 5);
    assert_eq!(rows, vec![""]);
}

#[test]
fn qr_scaling_matches_module_matrix() {
    let data = b"test vanity address";
    let (img, fs) = qrcode_scaled(data, 10).unwrap();
    let code = QrCode::new(data).unwrap();
    let w = code.width();
    let colors = code.to_colors();
    let pad = 10usize;
    let ss = w * 10;
    assert_eq!(fs, ss + 2 * pad);
    assert_eq!(img.len(), 3 * fs * fs);
    let expected: Vec<u8> = (0..fs * fs)
        .flat_map(|i| {
            let x = i / fs;
            let y = i % fs;
            if x < pad || y < pad || x >= pad + ss || y >= pad + ss {
                vec![255u8; 3]
            } else if colors[(x - pad) / 10 * w + (y - pad) / 10] != Color::Light {
                vec![0u8; 3]
            } else {
                vec![255u8; 3]
            }
        })
        .collect();
    assert_eq!(img, expected);
}
