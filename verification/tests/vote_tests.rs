use libserpix_rs::pixel::{color_to_integer, decode_header, header_from_pixel, FrameHeader, Pixel};
use libserpix_rs::vote::{all_values_equal, count_occurrences, resolve_by_majority};

fn px(r: u8, g: u8, b: u8) -> Pixel {
    Pixel { r, g, b, a: 255 }
}

#[test]
fn color_packs_red_green_blue() {
    assert_eq!(color_to_integer(&px(0, 0, 0)), 0);
    assert_eq!(color_to_integer(&px(1, 2, 3)), 0x010203);
    assert_eq!(color_to_integer(&px(255, 255, 255)), 0xffffff);
    assert_eq!(color_to_integer(&px(6, 150, 5)), 6 * 65536 + 150 * 256 + 5);
}

#[test]
fn color_ignores_alpha() {
    let opaque = Pixel { r: 9, g: 8, b: 7, a: 255 };
    let clear = Pixel { r: 9, g: 8, b: 7, a: 0 };
    assert_eq!(color_to_integer(&opaque), color_to_integer(&clear));
}

#[test]
fn header_unpacks_three_bytes() {
    assert_eq!(decode_header(0x069605), (6, 150, 5));
    assert_eq!(decode_header(0), (0, 0, 0));
    assert_eq!(decode_header(0xffffff), (255, 255, 255));
    assert_eq!(decode_header(0x010000), (1, 0, 0));
    assert_eq!(decode_header(0x000100), (0, 1, 0));
}

#[test]
fn header_ignores_bits_above_the_colour() {
    assert_eq!(decode_header(0xab_12_34_56), (0x12, 0x34, 0x56));
}

#[test]
fn header_round_trips_through_a_pixel() {
    for size in [0u8, 1, 6, 127, 255] {
        for checksum in [0u8, 150, 255] {
            for sequence in [0u8, 5, 255] {
                let p = px(size, checksum, sequence);
                assert_eq!(decode_header(color_to_integer(&p)), (size, checksum, sequence));
                assert_eq!(header_from_pixel(&p), FrameHeader { size, checksum, sequence });
            }
        }
    }
}

#[test]
fn two_of_three_resolve_to_the_repeated_value() {
    let a = px(1, 1, 1);
    let b = px(2, 2, 2);
    assert_eq!(resolve_by_majority(&vec![a, a, b], 2), Some(a));
    assert_eq!(resolve_by_majority(&vec![a, b, a], 2), Some(a));
    assert_eq!(resolve_by_majority(&vec![b, a, a], 2), Some(a));
}

#[test]
fn three_different_values_do_not_resolve() {
    let a = px(1, 1, 1);
    let b = px(2, 2, 2);
    let c = px(3, 3, 3);
    assert_eq!(resolve_by_majority(&vec![a, b, c], 2), None);
}

#[test]
fn vote_needs_the_required_agreement() {
    let a = px(1, 1, 1);
    let b = px(2, 2, 2);
    let samples = vec![a, a, a, b, b];
    assert_eq!(resolve_by_majority(&samples, 3), Some(a));
    assert_eq!(resolve_by_majority(&samples, 4), None);
    assert_eq!(resolve_by_majority(&samples, 1), Some(a));
    assert_eq!(resolve_by_majority(&samples, 0), Some(a));
}

#[test]
fn vote_takes_the_most_frequent_not_the_first_repeated() {
    let a = px(1, 1, 1);
    let b = px(2, 2, 2);
    assert_eq!(resolve_by_majority(&vec![a, a, b, b, b, a, b], 2), Some(b));
}

#[test]
fn vote_breaks_a_tie_for_the_value_sampled_first() {
    let a = px(1, 1, 1);
    let b = px(2, 2, 2);
    let c = px(3, 3, 3);
    assert_eq!(resolve_by_majority(&vec![a, b, b, a], 2), Some(a));
    assert_eq!(resolve_by_majority(&vec![c, b, a, b, a], 2), Some(b));
}

#[test]
fn vote_over_nothing_fails() {
    assert_eq!(resolve_by_majority(&Vec::new(), 2), None);
    assert_eq!(resolve_by_majority(&Vec::new(), 0), None);
}

#[test]
fn vote_over_one_sample() {
    let a = px(1, 1, 1);
    assert_eq!(resolve_by_majority(&vec![a], 2), None);
    assert_eq!(resolve_by_majority(&vec![a], 1), Some(a));
}

#[test]
fn vote_tells_pixels_apart_by_alpha() {
    let opaque = Pixel { r: 1, g: 1, b: 1, a: 255 };
    let clear = Pixel { r: 1, g: 1, b: 1, a: 0 };
    assert_eq!(resolve_by_majority(&vec![opaque, clear], 2), None);
    assert_eq!(resolve_by_majority(&vec![opaque, clear, clear], 2), Some(clear));
}

#[test]
fn occurrences_are_counted() {
    let a = px(1, 1, 1);
    let b = px(2, 2, 2);
    let c = px(3, 3, 3);
    let samples = vec![a, b, a, a, b];
    assert_eq!(count_occurrences(&samples, a), 3);
    assert_eq!(count_occurrences(&samples, b), 2);
    assert_eq!(count_occurrences(&samples, c), 0);
    assert_eq!(count_occurrences(&Vec::new(), a), 0);
}

#[test]
fn all_values_equal_on_samples() {
    let a = px(1, 1, 1);
    let b = px(2, 2, 2);
    assert!(all_values_equal(&Vec::new()));
    assert!(all_values_equal(&vec![a]));
    assert!(all_values_equal(&vec![a, a, a]));
    assert!(!all_values_equal(&vec![a, a, b]));
    assert!(!all_values_equal(&vec![b, a, a]));
}
