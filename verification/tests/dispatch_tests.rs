use light_field_test::dispatch::{
    aligned_bytes_per_row, diagonal_work_group, div_ceil_u32, output_buffer_size, pad_to_256,
    texture_fits, unpad_rows, work_group_size,
};

#[test]
fn div_ceil_rounds_up() {
    assert_eq!(div_ceil_u32(256, 8), 32);
    assert_eq!(div_ceil_u32(257, 8), 33);
    assert_eq!(div_ceil_u32(0, 8), 0);
    assert_eq!(div_ceil_u32(u32::MAX, 1), u32::MAX);
    assert_eq!(div_ceil_u32(u32::MAX, 2), 2147483648);
}

#[test]
fn work_groups_cover_each_side() {
    assert_eq!(work_group_size(512, 512), (64, 64));
    assert_eq!(work_group_size(513, 7), (65, 1));
    assert_eq!(work_group_size(0, 1), (0, 1));
    // law: groups times size covers the target, one group fewer does not
    for a in [1u32, 7, 8, 9, 100, 1023] {
        let (gx, _) = work_group_size(a, 1);
        assert!(gx * 8 >= a);
        assert!((gx - 1) * 8 < a);
    }
}

#[test]
fn diagonal_groups_take_larger_side() {
    assert_eq!(diagonal_work_group(256, 256), (2, true));
    assert_eq!(diagonal_work_group(300, 100), (3, false));
    assert_eq!(diagonal_work_group(100, 129), (2, false));
}

#[test]
fn rows_align_to_256() {
    assert_eq!(aligned_bytes_per_row(64, 256), 256);
    assert_eq!(aligned_bytes_per_row(65, 256), 512);
    assert_eq!(aligned_bytes_per_row(0, 256), 0);
    assert_eq!(aligned_bytes_per_row(3, 4), 12);
}

#[test]
fn output_buffer_is_four_aligned_rows_per_line() {
    assert_eq!(output_buffer_size(64, 2, 256), 4 * 256 * 2);
    assert_eq!(output_buffer_size(65, 3, 256), 4 * 512 * 3);
}

#[test]
fn unpad_drops_row_padding() {
    // width 1: 4 bytes of pixel per 256-byte row
    let mut data = vec![0u8; 256 + 4];
    data[0..4].copy_from_slice(&[1, 2, 3, 4]);
    data[256..260].copy_from_slice(&[5, 6, 7, 8]);
    let pixels = unpad_rows(&data, 1, 2);
    assert_eq!(pixels, vec![1, 2, 3, 4, 5, 6, 7, 8]);
    assert!(unpad_rows(&[], 5, 0).is_empty());
}

#[test]
fn pad_fills_with_zeros() {
    let bytes = vec![9u8, 8, 7];
    let padded = pad_to_256(&bytes);
    assert_eq!(&padded[0..3], &[9, 8, 7]);
    assert!(padded[3..].iter().all(|b| *b == 0));
    let full = vec![1u8; 256];
    assert_eq!(pad_to_256(&full), [1u8; 256]);
}

#[test]
fn texture_fit_checks_both_sides() {
    assert!(texture_fits((100, 100), (100, 100)));
    assert!(texture_fits((100, 100), (50, 99)));
    assert!(!texture_fits((100, 100), (101, 1)));
    assert!(!texture_fits((100, 100), (1, 101)));
}
