use cbz_viewer::grid::badges::format_file_size;
use cbz_viewer::num::round_to_significand;
use cbz_viewer::text::{
    decimal_text, fill_placeholder, format_bytes_mb, is_blank, is_white_space, join, lower_text,
    same_text, upper_text,
};
use cbz_viewer::viewer::auto_spread_plan::is_portrait_page;
use cbz_viewer::viewer::decode_layout::{
    request_display_width_for_pair, static_rgba_bytes_for_decode,
};

#[test]
fn numerals_are_those_of_std() {
    for n in [0u128, 7, 10, 99, 100, 12345, u64::MAX as u128] {
        assert_eq!(decimal_text(n), n.to_string());
    }
}

#[test]
fn letter_case_is_ascii_only() {
    assert_eq!(lower_text("AbÇ9"), "abÇ9");
    assert_eq!(upper_text("aBç9"), "ABç9");
    assert!(same_text("abc", "abc"));
    assert!(!same_text("abc", "abd"));
    assert!(!same_text("abc", "ab"));
}

#[test]
fn white_space_is_that_of_std() {
    for n in 0u32..=0x10FFFF {
        if let Some(c) = char::from_u32(n) {
            assert_eq!(is_white_space(c), c.is_whitespace(), "{:x}", n);
        }
    }
    assert!(is_blank(""));
    assert!(is_blank(" \t\u{3000}"));
    assert!(!is_blank(" a "));
}

#[test]
fn placeholders_are_filled_once() {
    for (template, value) in [("{} of {}", "3"), ("none", "3"), ("{", "3"), ("a{}", "x"), ("{{}}", "y")] {
        assert_eq!(fill_placeholder(template, value), template.replacen("{}", value, 1));
    }
}

#[test]
fn lists_are_joined() {
    let parts = vec!["a".to_string(), "b".to_string(), "c".to_string()];
    assert_eq!(join(&parts, ", "), "a, b, c");
    assert_eq!(join(&Vec::new(), ", "), "");
}

#[test]
fn mebibyte_labels_drop_a_zero_tenth() {
    assert_eq!(format_bytes_mb(0), "0");
    assert_eq!(format_bytes_mb(1024 * 1024), "1");
    assert_eq!(format_bytes_mb(1024 * 1024 * 3 / 2), "1.5");
    assert_eq!(format_bytes_mb(1024 * 1024 * 12 + 52429), "12.1");
}

fn std_file_size(bytes: u64) -> String {
    const KB: f64 = 1024.0;
    const MB: f64 = KB * 1024.0;
    const GB: f64 = MB * 1024.0;
    let b = bytes as f64;
    if b >= GB {
        format!("{:.1}GB", b / GB)
    } else if b >= MB {
        format!("{:.1}MB", b / MB)
    } else {
        format!("{:.0}KB", (b / KB).max(1.0))
    }
}

#[test]
fn file_sizes_are_those_of_double_precision() {
    assert_eq!(format_file_size(0), "1KB");
    assert_eq!(format_file_size(1536), "2KB");
    assert_eq!(format_file_size(2560), "2KB");
    assert_eq!(format_file_size(1024 * 1024), "1.0MB");
    assert_eq!(format_file_size(3 * 1024 * 1024 * 1024 / 2), "1.5GB");
    let mut sizes: Vec<u64> = vec![1, 1023, 1024, 1025, 512 * 3, 512 * 5, 512 * 7, u64::MAX];
    let mut n: u64 = 1;
    for i in 0..62u32 {
        n = n.wrapping_mul(6364136223846793005).wrapping_add(1442695040888963407 + i as u64);
        sizes.push(n >> i);
        sizes.push((1u64 << i) + (n % 7));
        sizes.push((1u64 << i) * 3 / 2);
    }
    for k in 0..200u64 {
        sizes.push(1024 * 1024 + k * 52429);
        sizes.push((1 << 30) + k * 53687091);
        sizes.push(k * 1024 + 512);
    }
    for size in sizes {
        assert_eq!(format_file_size(size), std_file_size(size), "{}", size);
    }
}

#[test]
fn rounding_is_that_of_single_precision() {
    for n in [0u64, 1, 16777215, 16777216, 16777217, 16777219, 33554435, 4294967295] {
        assert_eq!(round_to_significand(n, 1 << 24), (n as f32) as u128, "{}", n);
    }
}

fn std_is_portrait(w: u32, h: u32) -> Option<bool> {
    if w == 0 {
        return None;
    }
    Some(h as f32 / w as f32 >= 1.1)
}

#[test]
fn portrait_pages_are_those_of_single_precision() {
    let mut sizes: Vec<(u32, u32)> = vec![
        (0, 5),
        (1, 0),
        (10, 11),
        (100, 110),
        (1000, 1100),
        (1000, 1101),
        (10000, 11000),
        (16777217, 18454939),
        (u32::MAX, u32::MAX),
        (1, u32::MAX),
        (3, 4),
    ];
    for w in 1..400u32 {
        for d in [0u32, 1, 2] {
            sizes.push((w, w * 11 / 10 + d));
            sizes.push((w * 9973, w * 10970 + d * 5000));
            sizes.push((w * 1_000_003, (w as u64 * 1_100_003) as u32 + d));
        }
    }
    for (w, h) in sizes {
        assert_eq!(is_portrait_page(w, h), std_is_portrait(w, h), "{}x{}", w, h);
    }
}

#[test]
fn half_a_screen_is_rounded_up() {
    assert_eq!(request_display_width_for_pair(1001, true), 501);
    assert_eq!(request_display_width_for_pair(0, true), 1);
    assert_eq!(request_display_width_for_pair(1001, false), 1001);
    assert_eq!(static_rgba_bytes_for_decode(10, 20, 2), 1600);
    assert_eq!(static_rgba_bytes_for_decode(u32::MAX, u32::MAX, 2), usize::MAX);
}
